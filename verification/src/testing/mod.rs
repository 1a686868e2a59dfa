//! Test outcomes and their reports. Reports live in fixed-capacity strings of
//! the `heapless` crate, so that reporting a failure or an error allocates
//! nothing.
use crate::text::{decimal, digit_char, encoded_len, lemma_encoded_len_concat};
use vstd::prelude::*;
use vstd::utf8::{encode_utf8, is_ascii_chars, is_ascii_chars_encode_utf8};

pub mod assertions;
pub mod runner;

verus! {

/// `heapless::CapacityError`, the error of a fixed-capacity container that
/// has no room left; carried through as an opaque value.
#[verifier::external_type_specification]
#[verifier::external_body]
pub struct ExCapacityError(heapless::CapacityError);

/// A failure report, held in a `heapless::String<64>`.
#[verifier::external_body]
pub struct FailureMessage {
    text: heapless::String<64>,
}

/// An error report, held in a `heapless::String<16>`.
#[verifier::external_body]
pub struct ErrorMessage {
    text: heapless::String<16>,
}

/// The characters that a failure report holds.
pub uninterp spec fn failure_chars(message: FailureMessage) -> Seq<char>;

/// The characters that an error report holds.
pub uninterp spec fn error_chars(message: ErrorMessage) -> Seq<char>;

impl FailureMessage {
    /// `heapless::String::<64>::new`: an empty report.
    #[verifier::external_body]
    pub(crate) fn new() -> (m: FailureMessage)
        ensures
            failure_chars(m) == Seq::<char>::empty(),
    {
        FailureMessage { text: heapless::String::new() }
    }

    /// `heapless::String::push_str`: appends `s` when the UTF-8 bytes held
    /// and those of `s` fit in 64 bytes; otherwise refuses and changes
    /// nothing.
    #[verifier::external_body]
    pub(crate) fn push_str(&mut self, s: &str) -> (r: Result<(), heapless::CapacityError>)
        ensures
            r is Ok <==> encoded_len(failure_chars(*old(self))) + encoded_len(s@) <= 64,
            failure_chars(*final(self)) == if r is Ok {
                failure_chars(*old(self)) + s@
            } else {
                failure_chars(*old(self))
            },
    {
        self.text.push_str(s)
    }

    /// `heapless::String::push`: appends `c` when the UTF-8 bytes held and
    /// those of `c` fit in 64 bytes; otherwise refuses and changes nothing.
    #[verifier::external_body]
    pub(crate) fn push(&mut self, c: char) -> (r: Result<(), heapless::CapacityError>)
        ensures
            r is Ok <==> encoded_len(failure_chars(*old(self))) + encoded_len(seq![c]) <= 64,
            failure_chars(*final(self)) == if r is Ok {
                failure_chars(*old(self)).push(c)
            } else {
                failure_chars(*old(self))
            },
    {
        self.text.push(c)
    }

    /// `heapless::String::<64>::try_from(text)`: the string holding `text`
    /// when its UTF-8 encoding takes at most 64 bytes, else the capacity
    /// error (the string's `push_str` refuses what does not fit).
    #[verifier::external_body]
    pub(crate) fn try_from_str(text: &str) -> (r: Result<FailureMessage, heapless::CapacityError>)
        ensures
            r is Ok <==> encode_utf8(text@).len() <= 64,
            r matches Ok(m) ==> failure_chars(m) == text@,
    {
        match heapless::String::<64>::try_from(text) {
            Ok(text) => Ok(FailureMessage { text }),
            Err(e) => Err(e),
        }
    }

    /// `heapless::String::as_str`: the text that the report holds.
    #[verifier::external_body]
    pub(crate) fn as_str(&self) -> (r: &str)
        ensures
            r@ == failure_chars(*self),
    {
        self.text.as_str()
    }

    /// The text of the report.
    pub fn text(&self) -> (r: &str)
        ensures
            r@ == failure_chars(*self),
    {
        self.as_str()
    }
}

impl ErrorMessage {
    /// `heapless::String::<16>::try_from(text)`: the string holding `text`
    /// when its UTF-8 encoding takes at most 16 bytes, else the capacity
    /// error.
    #[verifier::external_body]
    pub(crate) fn try_from_str(text: &str) -> (r: Result<ErrorMessage, heapless::CapacityError>)
        ensures
            r is Ok <==> encode_utf8(text@).len() <= 16,
            r matches Ok(m) ==> error_chars(m) == text@,
    {
        match heapless::String::<16>::try_from(text) {
            Ok(text) => Ok(ErrorMessage { text }),
            Err(e) => Err(e),
        }
    }

    /// `heapless::String::as_str`: the text that the report holds.
    #[verifier::external_body]
    pub(crate) fn as_str(&self) -> (r: &str)
        ensures
            r@ == error_chars(*self),
    {
        self.text.as_str()
    }

    /// The text of the report.
    pub fn text(&self) -> (r: &str)
        ensures
            r@ == error_chars(*self),
    {
        self.as_str()
    }
}

/// What a test returns.
pub enum TestResult {
    /// Every assertion held.
    Passed,
    /// An assertion did not hold.
    Failed(FailureMessage),
    /// The test could not complete.
    Error(ErrorMessage),
}

/// Why a whole run did not succeed.
#[derive(PartialEq, Eq, Structural, Clone, Copy, Debug)]
pub enum TestRunnerFailure {
    /// At least one assertion failed, and no test returned an error.
    Failed,
    /// At least one test returned an error.
    Error,
}

/// The report text kept for `text` in a string of `capacity` bytes: `text`
/// itself when its UTF-8 encoding fits, else `fallback`.
pub open spec fn bounded_text(text: Seq<char>, fallback: Seq<char>, capacity: nat) -> Seq<char> {
    if encode_utf8(text).len() <= capacity {
        text
    } else {
        fallback
    }
}

/// The result is a failure whose report holds `text`.
pub open spec fn is_failure_with(r: TestResult, text: Seq<char>) -> bool {
    r matches TestResult::Failed(m) && failure_chars(m) == text
}

/// The result is an error whose report holds `text`.
pub open spec fn is_error_with(r: TestResult, text: Seq<char>) -> bool {
    r matches TestResult::Error(m) && error_chars(m) == text
}

/// The fallback report, kept when a report does not fit.
pub(crate) fn fallback_report(fallback: &str) -> (m: FailureMessage)
    requires
        encoded_len(fallback@) <= 64,
    ensures
        failure_chars(m) == fallback@,
{
    FailureMessage::try_from_str(fallback).unwrap()
}

/// Appends `s` to a report that has room for it.
pub(crate) fn append_str(out: &mut FailureMessage, s: &str)
    requires
        encoded_len(failure_chars(*old(out)) + s@) <= 64,
    ensures
        failure_chars(*final(out)) == failure_chars(*old(out)) + s@,
{
    proof {
        lemma_encoded_len_concat(failure_chars(*out), s@);
    }
    let r = out.push_str(s);
    proof {
        assert(r is Ok);
    }
}

/// Appends `c` to a report that has room for it.
pub(crate) fn append_char(out: &mut FailureMessage, c: char)
    requires
        encoded_len(failure_chars(*old(out)).push(c)) <= 64,
    ensures
        failure_chars(*final(out)) == failure_chars(*old(out)).push(c),
{
    proof {
        assert(failure_chars(*out).push(c) =~= failure_chars(*out) + seq![c]);
        lemma_encoded_len_concat(failure_chars(*out), seq![c]);
    }
    let r = out.push(c);
    proof {
        assert(r is Ok);
    }
}

/// Appends the decimal digits of `n` to a report that has room for them.
pub(crate) fn append_decimal(out: &mut FailureMessage, n: u64)
    requires
        encoded_len(failure_chars(*old(out)) + decimal(n as nat)) <= 64,
    ensures
        failure_chars(*final(out)) == failure_chars(*old(out)) + decimal(n as nat),
    decreases n,
{
    let ghost start = failure_chars(*out);
    if n >= 10 {
        proof {
            assert(start + decimal(n as nat) =~= (start + decimal((n / 10) as nat)) + seq![
                digit_char((n % 10) as nat),
            ]);
            lemma_encoded_len_concat(
                start + decimal((n / 10) as nat),
                seq![digit_char((n % 10) as nat)],
            );
        }
        append_decimal(out, n / 10);
    }
    let d = (n % 10) as u8;
    let c = (48u8 + d) as char;
    proof {
        assert(start + decimal(n as nat) =~= failure_chars(*out).push(c));
    }
    append_char(out, c);
}

/// An error result reporting `text`, which must fit in 16 bytes.
pub fn error_result(text: &str) -> (r: TestResult)
    requires
        encode_utf8(text@).len() <= 16,
    ensures
        is_error_with(r, text@),
{
    TestResult::Error(ErrorMessage::try_from_str(text).unwrap())
}

/// Shows that a string literal's text fits in `capacity` bytes.
pub proof fn lemma_ascii_fits(s: Seq<char>, capacity: nat)
    requires
        is_ascii_chars(s),
        s.len() <= capacity,
    ensures
        encode_utf8(s).len() <= capacity,
{
    is_ascii_chars_encode_utf8(s);
}

} // verus!
