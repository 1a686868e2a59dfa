//! Assertion helpers for tests: each compares two values and reports the
//! pair, rendered as `{:?}` renders them, when the comparison fails.
use crate::testing::{
    append_str, bounded_text, failure_chars, fallback_report, lemma_ascii_fits, FailureMessage,
    TestResult,
};
use crate::text::{encoded_len, lemma_encoded_len_concat, DebugText};
use vstd::prelude::*;
use vstd::std_specs::cmp::PartialEqSpec;

verus! {

/// The report of a failed custom comparison.
pub open spec fn comparison_report(expected: Seq<char>, actual: Seq<char>) -> Seq<char> {
    "  expected: "@ + expected + "\n  actual: "@ + actual
}

/// The report of a failed equality.
pub open spec fn equality_report(expected: Seq<char>, actual: Seq<char>) -> Seq<char> {
    "\n  should equal\n    expected: "@ + expected + "\n    actual: "@ + actual
}

/// The report of a failed inequality.
pub open spec fn inequality_report(expected: Seq<char>, actual: Seq<char>) -> Seq<char> {
    "\n  should not equal\n    expected: "@ + expected + "\n    actual: "@ + actual
}

/// The report `head`, `expected`, `middle`, `actual` in a 64-byte string,
/// or `fallback` when the whole report does not fit. Nothing is written
/// unless all of it fits, so no heap memory is used for the report.
fn bounded_pair<T: DebugText, U: DebugText>(
    head: &str,
    expected: &U,
    middle: &str,
    actual: &T,
    fallback: &str,
) -> (m: FailureMessage)
    requires
        encoded_len(fallback@) <= 64,
        encoded_len(head@) <= 64,
        encoded_len(middle@) <= 64,
    ensures
        failure_chars(m) == bounded_text(
            head@ + expected.debug_chars() + middle@ + actual.debug_chars(),
            fallback@,
            64,
        ),
{
    let ghost e = expected.debug_chars();
    let ghost a = actual.debug_chars();
    let ghost text = head@ + e + middle@ + a;
    proof {
        lemma_encoded_len_concat(head@, e);
        lemma_encoded_len_concat(head@ + e, middle@);
        lemma_encoded_len_concat(head@ + e + middle@, a);
    }
    let head_len = head.len();
    let middle_len = middle.len();
    if head_len > 64 || middle_len > 64 - head_len {
        return fallback_report(fallback);
    }
    let room = 64 - head_len - middle_len;
    let expected_len = match expected.debug_len_within(room) {
        Some(n) => n,
        None => {
            return fallback_report(fallback);
        },
    };
    if actual.debug_len_within(room - expected_len).is_none() {
        return fallback_report(fallback);
    }
    let mut out = FailureMessage::new();
    proof {
        assert(head_len == encoded_len(head@));
        assert(middle_len == encoded_len(middle@));
        assert(failure_chars(out) + head@ =~= head@);
    }
    append_str(&mut out, head);
    expected.write_debug(&mut out);
    append_str(&mut out, middle);
    actual.write_debug(&mut out);
    out
}

/// Passes when `test_logic` accepts the pair; otherwise fails, reporting
/// both values (or `failed` when the report would not fit in 64 bytes).
pub fn assert_impl<T: DebugText, U: DebugText, F: FnOnce(&T, &U) -> bool>(
    actual: &T,
    expected: &U,
    test_logic: F,
) -> (r: TestResult)
    requires
        test_logic.requires((actual, expected)),
    ensures
        r is Passed ==> test_logic.ensures((actual, expected), true),
        r is Failed ==> test_logic.ensures((actual, expected), false),
        r matches TestResult::Failed(m) ==> failure_chars(m) == bounded_text(
            comparison_report(expected.debug_chars(), actual.debug_chars()),
            "failed"@,
            64,
        ),
        !(r is Error),
{
    if test_logic(actual, expected) {
        TestResult::Passed
    } else {
        proof {
            reveal_strlit("failed");
            lemma_ascii_fits("failed"@, 64);
            reveal_strlit("  expected: ");
            lemma_ascii_fits("  expected: "@, 64);
            reveal_strlit("\n  actual: ");
            lemma_ascii_fits("\n  actual: "@, 64);
        }
        TestResult::Failed(bounded_pair("  expected: ", expected, "\n  actual: ", actual, "failed"))
    }
}

/// Passes when `actual == expected`; otherwise fails, reporting both values
/// (or `failed` when the report would not fit in 64 bytes).
pub fn assert_eq_impl<T: DebugText + PartialEq<U>, U: DebugText>(actual: &T, expected: &U) -> (r:
    TestResult)
    ensures
        T::obeys_eq_spec() ==> (r is Passed <==> actual.eq_spec(expected)),
        r matches TestResult::Failed(m) ==> failure_chars(m) == bounded_text(
            equality_report(expected.debug_chars(), actual.debug_chars()),
            "failed"@,
            64,
        ),
        !(r is Error),
{
    if actual.eq(expected) {
        TestResult::Passed
    } else {
        proof {
            reveal_strlit("failed");
            lemma_ascii_fits("failed"@, 64);
            reveal_strlit("\n  should equal\n    expected: ");
            lemma_ascii_fits("\n  should equal\n    expected: "@, 64);
            reveal_strlit("\n    actual: ");
            lemma_ascii_fits("\n    actual: "@, 64);
        }
        TestResult::Failed(
            bounded_pair("\n  should equal\n    expected: ", expected, "\n    actual: ", actual, "failed"),
        )
    }
}

/// Passes when `actual != expected`; otherwise fails, reporting both values
/// (or `fail` when the report would not fit in 64 bytes).
pub fn assert_ne_impl<T: DebugText + PartialEq<U>, U: DebugText>(actual: &T, expected: &U) -> (r:
    TestResult)
    ensures
        T::obeys_eq_spec() ==> (r is Passed <==> !actual.eq_spec(expected)),
        r matches TestResult::Failed(m) ==> failure_chars(m) == bounded_text(
            inequality_report(expected.debug_chars(), actual.debug_chars()),
            "fail"@,
            64,
        ),
        !(r is Error),
{
    if actual.eq(expected) {
        proof {
            reveal_strlit("fail");
            lemma_ascii_fits("fail"@, 64);
            reveal_strlit("\n  should not equal\n    expected: ");
            lemma_ascii_fits("\n  should not equal\n    expected: "@, 64);
            reveal_strlit("\n    actual: ");
            lemma_ascii_fits("\n    actual: "@, 64);
        }
        TestResult::Failed(
            bounded_pair(
                "\n  should not equal\n    expected: ",
                expected,
                "\n    actual: ",
                actual,
                "fail",
            ),
        )
    } else {
        TestResult::Passed
    }
}

} // verus!
