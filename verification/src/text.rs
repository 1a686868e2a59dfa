//! Text renderings used in reports and generated names: decimal numbers,
//! zero-padded decimals, and the `Debug` renderings of the values that the
//! assertions compare.
use crate::testing::{append_char, append_decimal, append_str, failure_chars, FailureMessage};
use vstd::prelude::*;
use vstd::utf8::{encode_utf8, is_ascii_chars};

verus! {

/// The character of decimal digit `d`.
pub open spec fn digit_char(d: nat) -> char {
    (d + 48) as char
}

/// The decimal digits of `n`, most significant first, with no leading zeros
/// (`0` is the single digit `0`).
pub open spec fn decimal(n: nat) -> Seq<char>
    decreases n,
{
    if n < 10 {
        seq![digit_char(n)]
    } else {
        decimal(n / 10).push(digit_char(n % 10))
    }
}

/// `n` in decimal, padded on the left with zeros to at least `width`
/// characters.
pub open spec fn zero_padded(n: nat, width: nat) -> Seq<char> {
    let digits = decimal(n);
    if digits.len() < width {
        Seq::new((width - digits.len()) as nat, |i: int| '0') + digits
    } else {
        digits
    }
}

/// The elements of `values` in decimal, separated by `", "`.
pub open spec fn joined_decimals(values: Seq<u32>) -> Seq<char>
    decreases values.len(),
{
    if values.len() == 0 {
        Seq::empty()
    } else if values.len() == 1 {
        decimal(values[0] as nat)
    } else {
        joined_decimals(values.drop_last()) + ", "@ + decimal(values.last() as nat)
    }
}

/// Appends `c` to `s`, as `String::push` does.
#[verifier::external_body]
pub(crate) fn push_char(s: &mut String, c: char)
    ensures
        final(s)@ == old(s)@.push(c),
{
    s.push(c);
}

/// Appends the decimal digits of `n` to `s`.
pub fn push_decimal(s: &mut String, n: u64)
    ensures
        final(s)@ == old(s)@ + decimal(n as nat),
    decreases n,
{
    if n >= 10 {
        push_decimal(s, n / 10);
    }
    let d = (n % 10) as u8;
    let c = (48u8 + d) as char;
    push_char(s, c);
    proof {
        assert(old(s)@ + decimal(n as nat) =~= final(s)@) by {
            if n >= 10 {
                assert(old(s)@ + decimal(n as nat) =~= (old(s)@ + decimal((n / 10) as nat)).push(
                    digit_char((n % 10) as nat),
                ));
            }
        }
    }
}

/// `n` in decimal.
pub fn decimal_text(n: u64) -> (r: String)
    ensures
        r@ == decimal(n as nat),
{
    let mut s = String::new();
    push_decimal(&mut s, n);
    assert(s@ =~= decimal(n as nat));
    s
}

/// Number of bytes in the UTF-8 encoding of `s`.
pub open spec fn encoded_len(s: Seq<char>) -> nat {
    encode_utf8(s).len()
}

/// The encoding of a concatenation is the concatenation of the encodings.
pub proof fn lemma_encoded_len_concat(a: Seq<char>, b: Seq<char>)
    ensures
        encode_utf8(a + b) == encode_utf8(a) + encode_utf8(b),
        encoded_len(a + b) == encoded_len(a) + encoded_len(b),
    decreases a.len(),
{
    if a.len() > 0 {
        lemma_encoded_len_concat(a.drop_first(), b);
        assert((a + b).drop_first() =~= a.drop_first() + b);
        assert((a + b)[0] == a[0]);
        assert(encode_utf8(a + b) =~= encode_utf8(a) + encode_utf8(b));
    } else {
        assert(a + b =~= b);
        assert(encode_utf8(a) =~= Seq::<u8>::empty());
        assert(encode_utf8(a) + encode_utf8(b) =~= encode_utf8(b));
    }
}

/// The number of decimal digits of `n`.
pub fn decimal_len(n: u64) -> (r: u64)
    ensures
        r == decimal(n as nat).len(),
        r <= n + 1,
    decreases n,
{
    if n < 10 {
        1
    } else {
        decimal_len(n / 10) + 1
    }
}

/// `n` in decimal, padded on the left with zeros to at least `width`
/// characters.
pub fn zero_padded_text(n: u64, width: usize) -> (r: String)
    ensures
        r@ == zero_padded(n as nat, width as nat),
{
    let mut s = String::new();
    let len = decimal_len(n);
    if len < width as u64 {
        let zeros = width - len as usize;
        let mut i: usize = 0;
        while i < zeros
            invariant
                i <= zeros,
                s@ == Seq::new(i as nat, |k: int| '0'),
            decreases zeros - i,
        {
            push_char(&mut s, '0');
            i = i + 1;
            assert(s@ =~= Seq::new(i as nat, |k: int| '0'));
        }
    }
    push_decimal(&mut s, n);
    assert(s@ =~= zero_padded(n as nat, width as nat));
    s
}

/// Every decimal rendering is ASCII.
pub proof fn lemma_decimal_ascii(n: nat)
    ensures
        is_ascii_chars(decimal(n)),
        decimal(n).len() >= 1,
    decreases n,
{
    if n >= 10 {
        lemma_decimal_ascii(n / 10);
        assert(is_ascii_chars(decimal(n)));
    }
}

/// The joined decimal rendering of a sequence is ASCII.
pub proof fn lemma_joined_ascii(values: Seq<u32>)
    ensures
        is_ascii_chars(joined_decimals(values)),
    decreases values.len(),
{
    reveal_strlit(", ");
    if values.len() == 1 {
        lemma_decimal_ascii(values[0] as nat);
    } else if values.len() > 1 {
        lemma_joined_ascii(values.drop_last());
        lemma_decimal_ascii(values.last() as nat);
        assert(is_ascii_chars(joined_decimals(values)));
    }
}

/// Taking one more element adds a separator (after the first) and the
/// element's digits.
pub proof fn lemma_joined_step(values: Seq<u32>, i: int)
    requires
        0 <= i < values.len(),
    ensures
        joined_decimals(values.take(i + 1)) == joined_decimals(values.take(i)) + (if i > 0 {
            ", "@
        } else {
            Seq::<char>::empty()
        }) + decimal(values[i] as nat),
{
    let prev = values.take(i);
    let next = values.take(i + 1);
    assert(next.drop_last() =~= prev);
    assert(next.last() == values[i]);
    if i == 0 {
        assert(joined_decimals(prev) =~= Seq::<char>::empty());
        assert(joined_decimals(next) =~= joined_decimals(prev) + Seq::<char>::empty() + decimal(
            values[i] as nat,
        ));
    }
}

/// A prefix of the elements renders no longer than all of them.
pub proof fn lemma_joined_prefix_len(values: Seq<u32>, k: int)
    requires
        0 <= k <= values.len(),
    ensures
        joined_decimals(values.take(k)).len() <= joined_decimals(values).len(),
    decreases values.len() - k,
{
    if k < values.len() {
        lemma_joined_step(values, k);
        lemma_joined_prefix_len(values, k + 1);
    } else {
        assert(values.take(k) =~= values);
    }
}

/// The ASCII text of `s` takes one byte per character.
pub proof fn lemma_ascii_encoded_len(s: Seq<char>)
    requires
        is_ascii_chars(s),
    ensures
        encoded_len(s) == s.len(),
{
    vstd::utf8::is_ascii_chars_encode_utf8(s);
}

/// The text that `{:?}` renders for a value.
pub trait DebugText {
    /// The `Debug` rendering of the value.
    spec fn debug_chars(&self) -> Seq<char>;

    /// Renders the value as `{:?}` does, into a heap string.
    fn debug_text(&self) -> (s: String)
        ensures
            s@ == self.debug_chars(),
    ;

    /// The number of UTF-8 bytes of the rendering, when it is at most
    /// `limit`.
    fn debug_len_within(&self, limit: usize) -> (r: Option<usize>)
        ensures
            r == if encoded_len(self.debug_chars()) <= limit {
                Some(encoded_len(self.debug_chars()) as usize)
            } else {
                None::<usize>
            },
    ;

    /// Appends the rendering to a report that has room for it.
    fn write_debug(&self, out: &mut FailureMessage)
        requires
            encoded_len(failure_chars(*old(out)) + self.debug_chars()) <= 64,
        ensures
            failure_chars(*final(out)) == failure_chars(*old(out)) + self.debug_chars(),
    ;
}

impl DebugText for u32 {
    open spec fn debug_chars(&self) -> Seq<char> {
        decimal(*self as nat)
    }

    fn debug_text(&self) -> (s: String) {
        decimal_text(*self as u64)
    }

    fn debug_len_within(&self, limit: usize) -> (r: Option<usize>) {
        let n = decimal_len(*self as u64);
        proof {
            lemma_decimal_ascii(*self as nat);
            lemma_ascii_encoded_len(decimal(*self as nat));
        }
        if n <= limit as u64 {
            Some(n as usize)
        } else {
            None
        }
    }

    fn write_debug(&self, out: &mut FailureMessage) {
        append_decimal(out, *self as u64);
    }
}

impl DebugText for u64 {
    open spec fn debug_chars(&self) -> Seq<char> {
        decimal(*self as nat)
    }

    fn debug_text(&self) -> (s: String) {
        decimal_text(*self)
    }

    fn debug_len_within(&self, limit: usize) -> (r: Option<usize>) {
        let n = decimal_len(*self);
        proof {
            lemma_decimal_ascii(*self as nat);
            lemma_ascii_encoded_len(decimal(*self as nat));
        }
        if n <= limit as u64 {
            Some(n as usize)
        } else {
            None
        }
    }

    fn write_debug(&self, out: &mut FailureMessage) {
        append_decimal(out, *self);
    }
}

proof fn lemma_list_ascii(values: Seq<u32>)
    ensures
        is_ascii_chars("["@ + joined_decimals(values) + "]"@),
        encoded_len("["@ + joined_decimals(values) + "]"@) == joined_decimals(values).len() + 2,
{
    reveal_strlit("[");
    reveal_strlit("]");
    lemma_joined_ascii(values);
    let t = "["@ + joined_decimals(values) + "]"@;
    assert(is_ascii_chars(t));
    lemma_ascii_encoded_len(t);
}

impl DebugText for Vec<u32> {
    open spec fn debug_chars(&self) -> Seq<char> {
        "["@ + joined_decimals(self@) + "]"@
    }

    fn debug_text(&self) -> (s: String) {
        let mut s = String::new();
        push_char(&mut s, '[');
        let n = self.len();
        for i in 0..n
            invariant
                n == self@.len(),
                s@ == seq!['['] + joined_decimals(self@.take(i as int)),
        {
            if i > 0 {
                push_char(&mut s, ',');
                push_char(&mut s, ' ');
            }
            push_decimal(&mut s, self[i] as u64);
            proof {
                reveal_strlit(", ");
                lemma_joined_step(self@, i as int);
                assert(s@ =~= seq!['['] + joined_decimals(self@.take(i + 1)));
            }
        }
        push_char(&mut s, ']');
        proof {
            reveal_strlit("[");
            reveal_strlit("]");
            assert(self@.take(n as int) =~= self@);
            assert(s@ =~= "["@ + joined_decimals(self@) + "]"@);
        }
        s
    }

    fn debug_len_within(&self, limit: usize) -> (r: Option<usize>) {
        proof {
            lemma_list_ascii(self@);
        }
        if limit == 0 {
            return None;
        }
        let n = self.len();
        let mut acc: usize = 1;
        for i in 0..n
            invariant
                n == self@.len(),
                acc == 1 + joined_decimals(self@.take(i as int)).len(),
                acc <= limit,
                encoded_len(self.debug_chars()) == joined_decimals(self@).len() + 2,
        {
            let sep: usize = if i > 0 {
                2
            } else {
                0
            };
            let digits = decimal_len(self[i] as u64);
            proof {
                reveal_strlit(", ");
                lemma_joined_step(self@, i as int);
                lemma_decimal_ascii(self@[i as int] as nat);
            }
            if digits > (limit - acc) as u64 || sep > limit - acc - digits as usize {
                proof {
                    lemma_joined_prefix_len(self@, i + 1);
                }
                return None;
            }
            acc = acc + sep + digits as usize;
        }
        proof {
            assert(self@.take(n as int) =~= self@);
        }
        if acc >= limit {
            None
        } else {
            Some(acc + 1)
        }
    }

    fn write_debug(&self, out: &mut FailureMessage) {
        let ghost start = failure_chars(*out);
        let ghost total = start + self.debug_chars();
        proof {
            lemma_list_ascii(self@);
            lemma_encoded_len_concat(start, self.debug_chars());
            reveal_strlit("[");
            reveal_strlit("]");
            reveal_strlit(", ");
            lemma_encoded_len_concat(start, seq!['[']);
            lemma_ascii_encoded_len(seq!['[']);
            assert(start.push('[') =~= start + seq!['[']);
        }
        append_char(out, '[');
        let n = self.len();
        for i in 0..n
            invariant
                n == self@.len(),
                failure_chars(*out) == start + seq!['['] + joined_decimals(self@.take(i as int)),
                encoded_len(total) <= 64,
                encoded_len(total) == encoded_len(start) + joined_decimals(self@).len() + 2,
        {
            proof {
                lemma_joined_step(self@, i as int);
                lemma_joined_prefix_len(self@, i + 1);
                lemma_joined_ascii(self@.take(i + 1));
                lemma_ascii_encoded_len(seq!['['] + joined_decimals(self@.take(i + 1)));
            }
            if i > 0 {
                proof {
                    let with_sep = seq!['['] + joined_decimals(self@.take(i as int)) + ", "@;
                    assert(is_ascii_chars(with_sep)) by {
                        let inner = seq!['['] + joined_decimals(self@.take(i as int));
                        lemma_joined_ascii(self@.take(i as int));
                        assert(is_ascii_chars(seq!['[']));
                        reveal_strlit(", ");
                        assert(is_ascii_chars(", "@));
                        vstd::utf8::is_ascii_chars_concat(
                            inner,
                            seq!['['],
                            joined_decimals(self@.take(i as int)),
                        );
                        vstd::utf8::is_ascii_chars_concat(with_sep, inner, ", "@);
                    }
                    lemma_ascii_encoded_len(with_sep);
                    assert(start + seq!['['] + joined_decimals(self@.take(i as int)) + ", "@
                        =~= start + with_sep);
                    lemma_encoded_len_concat(start, with_sep);
                }
                append_str(out, ", ");
            }
            proof {
                let next = seq!['['] + joined_decimals(self@.take(i + 1));
                assert(failure_chars(*out) + decimal(self@[i as int] as nat) =~= start + next);
                lemma_encoded_len_concat(start, next);
            }
            append_decimal(out, self[i] as u64);
        }
        proof {
            assert(self@.take(n as int) =~= self@);
            assert(failure_chars(*out).push(']') =~= total);
        }
        append_char(out, ']');
    }
}

/// The leading digit of a positive number is not `0`.
pub proof fn lemma_decimal_leading_digit(n: nat)
    requires
        n > 0,
    ensures
        decimal(n)[0] != '0',
    decreases n,
{
    lemma_decimal_ascii(n);
    if n >= 10 {
        lemma_decimal_leading_digit(n / 10);
        lemma_decimal_ascii(n / 10);
        assert(decimal(n)[0] == decimal(n / 10)[0]);
    }
}

proof fn lemma_digit_char_injective(a: nat, b: nat)
    requires
        a < 10,
        b < 10,
        digit_char(a) == digit_char(b),
    ensures
        a == b,
{
    assert(digit_char(a) as u32 == a + 48);
    assert(digit_char(b) as u32 == b + 48);
}

/// Distinct numbers have distinct decimal renderings.
pub proof fn lemma_decimal_injective(a: nat, b: nat)
    requires
        decimal(a) == decimal(b),
    ensures
        a == b,
    decreases a,
{
    lemma_decimal_ascii(a);
    lemma_decimal_ascii(b);
    if a < 10 {
        if b >= 10 {
            lemma_decimal_ascii(b / 10);
            assert(decimal(b).len() >= 2);
        }
        assert(decimal(a)[0] == digit_char(a));
        assert(decimal(b)[0] == digit_char(b));
        lemma_digit_char_injective(a, b);
    } else {
        if b < 10 {
            lemma_decimal_ascii(a / 10);
            assert(decimal(a).len() >= 2);
        }
        assert(decimal(a).drop_last() =~= decimal(a / 10));
        assert(decimal(b).drop_last() =~= decimal(b / 10));
        lemma_decimal_injective(a / 10, b / 10);
        assert(decimal(a).last() == digit_char(a % 10));
        assert(decimal(b).last() == digit_char(b % 10));
        lemma_digit_char_injective(a % 10, b % 10);
    }
}

/// Distinct numbers have distinct zero-padded renderings.
pub proof fn lemma_zero_padded_injective(a: nat, b: nat, width: nat)
    requires
        zero_padded(a, width) == zero_padded(b, width),
    ensures
        a == b,
{
    let da = decimal(a);
    let db = decimal(b);
    lemma_decimal_ascii(a);
    lemma_decimal_ascii(b);
    let pa = zero_padded(a, width);
    if da.len() < width && db.len() < width {
        if da.len() == db.len() {
            assert(da =~= pa.subrange(width - da.len(), width as int));
            assert(db =~= pa.subrange(width - db.len(), width as int));
            lemma_decimal_injective(a, b);
        } else if da.len() < db.len() {
            let i = width - db.len();
            assert(pa[i] == '0');
            assert(pa[i] == db[0]);
            assert(b > 0) by {
                if b == 0 {
                    assert(db.len() == 1);
                }
            }
            lemma_decimal_leading_digit(b);
        } else {
            let i = width - da.len();
            assert(pa[i] == da[0]);
            assert(zero_padded(b, width)[i] == '0');
            assert(a > 0) by {
                if a == 0 {
                    assert(da.len() == 1);
                }
            }
            lemma_decimal_leading_digit(a);
        }
    } else if da.len() < width {
        assert(pa[0] == '0');
        assert(db[0] == '0');
        assert(b > 0) by {
            if b == 0 {
                assert(db.len() == 1);
            }
        }
        lemma_decimal_leading_digit(b);
    } else if db.len() < width {
        assert(zero_padded(b, width)[0] == '0');
        assert(da[0] == '0');
        assert(a > 0) by {
            if a == 0 {
                assert(da.len() == 1);
            }
        }
        lemma_decimal_leading_digit(a);
    } else {
        lemma_decimal_injective(a, b);
    }
}

/// The number that a string of decimal digits denotes, most significant
/// digit first.
pub open spec fn digits_value(s: Seq<char>) -> int
    decreases s.len(),
{
    if s.len() == 0 {
        0
    } else {
        10 * digits_value(s.drop_last()) + (s.last() as int - 48)
    }
}

/// The decimal rendering of `n` consists of the digits `0` to `9` and
/// denotes `n`.
pub proof fn lemma_decimal_denotes(n: nat)
    ensures
        digits_value(decimal(n)) == n,
        forall|i: int| 0 <= i < decimal(n).len() ==> '0' <= #[trigger] decimal(n)[i] <= '9',
    decreases n,
{
    assert(digit_char(n % 10) as int == n % 10 + 48);
    let s = decimal(n);
    assert(s.last() == digit_char(n % 10));
    assert(digits_value(s) == 10 * digits_value(s.drop_last()) + (s.last() as int - 48));
    if n < 10 {
        assert(s.drop_last() =~= Seq::<char>::empty());
        assert(digits_value(s.drop_last()) == 0);
    } else {
        lemma_decimal_denotes(n / 10);
        assert(s.drop_last() =~= decimal(n / 10));
        assert(n == 10 * (n / 10) + n % 10);
        assert forall|i: int| 0 <= i < decimal(n).len() implies '0' <= #[trigger] decimal(n)[i]
            <= '9' by {
            if i < decimal(n / 10).len() {
                assert(decimal(n)[i] == decimal(n / 10)[i]);
            }
        }
    }
}

proof fn lemma_leading_zeros_value(k: nat, s: Seq<char>)
    ensures
        digits_value(Seq::new(k, |i: int| '0') + s) == digits_value(s),
    decreases s.len(), k,
{
    let z = Seq::new(k, |i: int| '0');
    if s.len() == 0 {
        assert(z + s =~= z);
        if k > 0 {
            assert(z.drop_last() =~= Seq::new((k - 1) as nat, |i: int| '0'));
            lemma_leading_zeros_value((k - 1) as nat, Seq::<char>::empty());
            assert(Seq::new((k - 1) as nat, |i: int| '0') + Seq::<char>::empty() =~= z.drop_last());
            assert(z.last() == '0');
        }
    } else {
        lemma_leading_zeros_value(k, s.drop_last());
        assert((z + s).drop_last() =~= z + s.drop_last());
        assert((z + s).last() == s.last());
    }
}

/// A zero-padded rendering has at least `width` characters, all digits,
/// and still denotes `n`.
pub proof fn lemma_zero_padded_denotes(n: nat, width: nat)
    ensures
        digits_value(zero_padded(n, width)) == n,
        zero_padded(n, width).len() == if decimal(n).len() < width {
            width
        } else {
            decimal(n).len()
        },
        forall|i: int|
            0 <= i < zero_padded(n, width).len() ==> '0' <= #[trigger] zero_padded(n, width)[i]
                <= '9',
{
    lemma_decimal_denotes(n);
    let d = decimal(n);
    if d.len() < width {
        let k = (width - d.len()) as nat;
        lemma_leading_zeros_value(k, d);
        let p = zero_padded(n, width);
        assert forall|i: int| 0 <= i < p.len() implies '0' <= #[trigger] p[i] <= '9' by {
            if i >= k {
                assert(p[i] == d[i - k]);
            }
        }
    }
}

} // verus!
