use riscv_test_runner::stress_tests::{allocation_error, test_intentional_failure};
use riscv_test_runner::testing::runner::{exit_status, heap_in_use, RunTally};
use riscv_test_runner::testing::{TestResult, TestRunnerFailure};

#[test]
fn empty_run_succeeds() {
    let tally = RunTally::new();
    assert_eq!(tally.outcome(), Ok(()));
    assert_eq!(exit_status(&tally.outcome()), 0);
}

#[test]
fn counts_each_kind_separately() {
    let mut tally = RunTally::new();
    let results = [TestResult::Passed, test_intentional_failure(), allocation_error(), TestResult::Passed];
    for r in &results {
        tally.record(r);
    }
    assert_eq!((tally.passes, tally.failures, tally.errors), (2, 1, 1));
}

#[test]
fn errors_take_precedence_over_failures() {
    let mut tally = RunTally::new();
    tally.record(&test_intentional_failure());
    assert_eq!(tally.outcome(), Err(TestRunnerFailure::Failed));
    assert_eq!(exit_status(&tally.outcome()), 1);
    tally.record(&allocation_error());
    assert_eq!(tally.outcome(), Err(TestRunnerFailure::Error));
    assert_eq!(exit_status(&tally.outcome()), 2);
}

#[test]
fn heap_usage_is_reported_when_in_use() {
    assert!(!heap_in_use(0, 0));
    assert!(heap_in_use(0, 16));
    assert!(heap_in_use(16, 0));
}
