//! The runner's bookkeeping: how test results are counted, which outcome a
//! run has, and which exit status reports it.
use crate::testing::{TestResult, TestRunnerFailure};
use vstd::prelude::*;

verus! {

/// Number of results in `results` that satisfy `kind`.
pub open spec fn count_where(results: Seq<TestResult>, kind: spec_fn(TestResult) -> bool) -> nat
    decreases results.len(),
{
    if results.len() == 0 {
        0
    } else {
        count_where(results.drop_last(), kind) + if kind(results.last()) {
            1nat
        } else {
            0nat
        }
    }
}

/// The passed, failed and erroneous tests of a run, counted separately.
pub struct RunTally {
    pub passes: usize,
    pub failures: usize,
    pub errors: usize,
}

/// The outcome of a run with the given counts: an error anywhere makes the
/// run an error, else a failure anywhere makes it a failure, else it
/// succeeded.
pub open spec fn outcome_spec(failures: nat, errors: nat) -> Result<(), TestRunnerFailure> {
    if errors > 0 {
        Err(TestRunnerFailure::Error)
    } else if failures > 0 {
        Err(TestRunnerFailure::Failed)
    } else {
        Ok(())
    }
}

/// The semihosting exit status that reports an outcome.
pub open spec fn exit_status_spec(outcome: Result<(), TestRunnerFailure>) -> i32 {
    match outcome {
        Ok(()) => 0,
        Err(TestRunnerFailure::Failed) => 1,
        Err(TestRunnerFailure::Error) => 2,
    }
}

impl RunTally {
    /// Total number of results counted.
    pub open spec fn total(&self) -> nat {
        (self.passes + self.failures + self.errors) as nat
    }

    /// The counts of a sequence of results.
    pub open spec fn counts_of(&self, results: Seq<TestResult>) -> bool {
        &&& self.passes == count_where(results, |r: TestResult| r is Passed)
        &&& self.failures == count_where(results, |r: TestResult| r is Failed)
        &&& self.errors == count_where(results, |r: TestResult| r is Error)
    }

    /// A tally with nothing counted.
    pub fn new() -> (t: RunTally)
        ensures
            t.passes == 0,
            t.failures == 0,
            t.errors == 0,
            t.counts_of(Seq::empty()),
    {
        RunTally { passes: 0, failures: 0, errors: 0 }
    }

    /// Counts one result in the counter of its kind.
    pub fn record(&mut self, result: &TestResult)
        requires
            old(self).total() < usize::MAX,
        ensures
            *final(self) == recorded(*old(self), *result),
    {
        match result {
            TestResult::Passed => {
                self.passes = self.passes + 1;
            },
            TestResult::Failed(_) => {
                self.failures = self.failures + 1;
            },
            TestResult::Error(_) => {
                self.errors = self.errors + 1;
            },
        }
    }

    /// The outcome of the run: an error if any test returned an error, else
    /// a failure if any assertion failed, else success.
    pub fn outcome(&self) -> (r: Result<(), TestRunnerFailure>)
        ensures
            r == outcome_spec(self.failures as nat, self.errors as nat),
            self.errors > 0 ==> r == Err::<(), TestRunnerFailure>(TestRunnerFailure::Error),
            self.errors == 0 && self.failures > 0 ==> r == Err::<(), TestRunnerFailure>(
                TestRunnerFailure::Failed,
            ),
            r is Ok <==> self.failures == 0 && self.errors == 0,
    {
        if self.errors > 0 {
            Err(TestRunnerFailure::Error)
        } else if self.failures > 0 {
            Err(TestRunnerFailure::Failed)
        } else {
            Ok(())
        }
    }
}

/// The exit status of a run: 0 on success, 1 when an assertion failed, 2 when
/// a test returned an error.
pub fn exit_status(outcome: &Result<(), TestRunnerFailure>) -> (code: i32)
    ensures
        code == exit_status_spec(*outcome),
        *outcome is Ok <==> code == 0,
        *outcome == Err::<(), TestRunnerFailure>(TestRunnerFailure::Failed) <==> code == 1,
        *outcome == Err::<(), TestRunnerFailure>(TestRunnerFailure::Error) <==> code == 2,
{
    match outcome {
        Ok(()) => 0,
        Err(TestRunnerFailure::Failed) => 1,
        Err(TestRunnerFailure::Error) => 2,
    }
}

/// Whether heap usage around a test is worth reporting: when the heap was in
/// use before or after it.
pub fn heap_in_use(used_before: usize, used_after: usize) -> (r: bool)
    ensures
        r == (used_after > 0 || used_before > 0),
{
    used_after > 0 || used_before > 0
}

/// The tally after counting `result`: the counter of its kind is one more.
pub open spec fn recorded(before: RunTally, result: TestResult) -> RunTally {
    match result {
        TestResult::Passed => RunTally { passes: (before.passes + 1) as usize, ..before },
        TestResult::Failed(_) => RunTally { failures: (before.failures + 1) as usize, ..before },
        TestResult::Error(_) => RunTally { errors: (before.errors + 1) as usize, ..before },
    }
}

/// Every result is of exactly one kind, so the three counts of a sequence
/// add up to its length.
pub proof fn lemma_counts_partition(results: Seq<TestResult>)
    ensures
        count_where(results, |r: TestResult| r is Passed) + count_where(
            results,
            |r: TestResult| r is Failed,
        ) + count_where(results, |r: TestResult| r is Error) == results.len(),
    decreases results.len(),
{
    if results.len() > 0 {
        lemma_counts_partition(results.drop_last());
    }
}

/// Counting the results of a run one at a time keeps each kind's count
/// equal to the number of results of that kind, and counts every result
/// exactly once.
pub proof fn lemma_tally_counts_each_result(
    before: RunTally,
    results: Seq<TestResult>,
    result: TestResult,
)
    requires
        before.counts_of(results),
        before.total() < usize::MAX,
    ensures
        recorded(before, result).counts_of(results.push(result)),
        recorded(before, result).total() == results.len() + 1,
{
    let all = results.push(result);
    assert(all.drop_last() =~= results);
    lemma_counts_partition(results);
}

/// Errors take precedence over failures: a run with an erroneous test is
/// an error whatever else happened, a run with a failed assertion and no
/// error is a failure, and only a run with neither succeeds. Its exit status
/// is 2, 1 and 0 respectively.
pub proof fn lemma_errors_take_precedence(failures: nat, errors: nat)
    ensures
        errors > 0 ==> outcome_spec(failures, errors) == Err::<(), TestRunnerFailure>(
            TestRunnerFailure::Error,
        ),
        errors == 0 && failures > 0 ==> outcome_spec(failures, errors) == Err::<
            (),
            TestRunnerFailure,
        >(TestRunnerFailure::Failed),
        outcome_spec(failures, errors) is Ok <==> failures == 0 && errors == 0,
        errors > 0 ==> exit_status_spec(outcome_spec(failures, errors)) == 2,
        errors == 0 && failures > 0 ==> exit_status_spec(outcome_spec(failures, errors)) == 1,
        errors == 0 && failures == 0 ==> exit_status_spec(outcome_spec(failures, errors)) == 0,
{
}

} // verus!
