//! A verified library of the logic of a small bare-metal test runner: the
//! deterministic stress workloads, the parameters of generated stress cases,
//! the assertion helpers and the runner's tally and exit-status rules.
pub mod assertions;
pub mod bits;
pub mod registration;
pub mod sorting;
pub mod stress_tests_generation;
pub mod testing;
pub mod text;
