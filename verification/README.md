# riscv_test_runner

The logic of a small bare-metal RISC-V test runner, verified with Verus.

- `src/` is the verified library: the deterministic stress workloads
  (`stress_tests`, with the bit operations of `bits` and the ascending sort
  of `sorting`), what the stress-suite generator computes on the host
  (`stress_tests_generation`), the assertion helpers and their bounded
  reports (`testing`, and the first-generation helpers in `assertions`),
  the runner's tally and exit status (`testing::runner`), the registration
  names (`registration`) and the text renderings used in reports (`text`).
- `app/` is the program around it: heap setup, the linker-backed registry,
  the printing runner loop, and the token-level bodies of the two
  procedural macros.
- `tests/` runs the library on concrete values, including the whole
  generated suite of 250 cases per family.
