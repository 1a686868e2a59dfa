//! The first-generation assertion helpers, whose reports are heap strings
//! without a capacity, and the bookkeeping of their runner, which counts
//! failed assertions only.
use crate::text::DebugText;
use vstd::prelude::*;
use vstd::std_specs::cmp::PartialEqSpec;
use vstd::string::StringExecFns;

verus! {

/// What a test returns.
pub enum TestResult {
    /// Every assertion held.
    Passed,
    /// An assertion did not hold; the report says why.
    Failed(String),
    /// The test could not complete.
    Error,
}

/// `head`, the rendering of `expected`, `middle`, the rendering of `actual`.
fn report(head: &str, expected: &String, middle: &str, actual: &String) -> (r: String)
    ensures
        r@ == head@ + expected@ + middle@ + actual@,
{
    let mut s = String::new();
    s.append(head);
    s.append(expected.as_str());
    s.append(middle);
    s.append(actual.as_str());
    s
}

/// The report of a failed comparison or equality.
pub open spec fn equal_report(expected: Seq<char>, actual: Seq<char>) -> Seq<char> {
    "expected "@ + expected + " to be equal to "@ + actual
}

/// The report of a failed inequality.
pub open spec fn not_equal_report(expected: Seq<char>, actual: Seq<char>) -> Seq<char> {
    "expected "@ + expected + " to not be equal to "@ + actual
}

/// Hands clones of both values to `test_logic`: passes when it returns
/// `true`, else fails, reporting both values.
pub fn assert_with<T: DebugText + Clone, F: FnOnce(T, T) -> bool>(
    actual: T,
    expected: T,
    test_logic: F,
) -> (r: TestResult)
    requires
        forall|a: T, e: T|
            cloned(actual, a) && cloned(expected, e) ==> #[trigger] test_logic.requires((a, e)),
    ensures
        exists|a: T, e: T|
            cloned(actual, a) && cloned(expected, e) && #[trigger] test_logic.ensures(
                (a, e),
                r is Passed,
            ),
        r matches TestResult::Failed(m) ==> m@ == equal_report(
            expected.debug_chars(),
            actual.debug_chars(),
        ),
        !(r is Error),
{
    let a = actual.clone();
    let e = expected.clone();
    let ghost (ga, ge) = (a, e);
    assert(cloned(actual, ga) && cloned(expected, ge));
    assert(test_logic.requires((ga, ge)));
    let outcome = test_logic(a, e);
    if outcome {
        TestResult::Passed
    } else {
        let et = expected.debug_text();
        let at = actual.debug_text();
        TestResult::Failed(report("expected ", &et, " to be equal to ", &at))
    }
}

/// Passes when `actual == expected`; otherwise fails, reporting both values.
pub fn assert_eq<T: DebugText + PartialEq>(actual: T, expected: T) -> (r: TestResult)
    ensures
        T::obeys_eq_spec() ==> (r is Passed <==> actual.eq_spec(&expected)),
        r matches TestResult::Failed(m) ==> m@ == equal_report(
            expected.debug_chars(),
            actual.debug_chars(),
        ),
        !(r is Error),
{
    if actual.eq(&expected) {
        TestResult::Passed
    } else {
        let et = expected.debug_text();
        let at = actual.debug_text();
        TestResult::Failed(report("expected ", &et, " to be equal to ", &at))
    }
}

/// Passes when `actual != expected`; otherwise fails, reporting both values.
pub fn assert_ne<T: DebugText + PartialEq>(actual: T, expected: T) -> (r: TestResult)
    ensures
        T::obeys_eq_spec() ==> (r is Passed <==> !actual.eq_spec(&expected)),
        r matches TestResult::Failed(m) ==> m@ == not_equal_report(
            expected.debug_chars(),
            actual.debug_chars(),
        ),
        !(r is Error),
{
    if actual.ne(&expected) {
        TestResult::Passed
    } else {
        let et = expected.debug_text();
        let at = actual.debug_text();
        TestResult::Failed(report("expected ", &et, " to not be equal to ", &at))
    }
}

/// The failure count after one more result: one more for a failed
/// assertion; passes and errors leave it as it was.
pub fn count_failure(failures: usize, result: &TestResult) -> (r: usize)
    requires
        failures < usize::MAX,
    ensures
        r == failures + if result is Failed {
            1int
        } else {
            0int
        },
{
    match result {
        TestResult::Failed(_) => failures + 1,
        _ => failures,
    }
}

/// The number of passed tests in the final summary: every test that did not
/// fail an assertion, errors included.
pub fn passed_in_summary(total: usize, failures: usize) -> (r: usize)
    requires
        failures <= total,
    ensures
        r == total - failures,
{
    total - failures
}

} // verus!
