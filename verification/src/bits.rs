//! Bit manipulations on 32-bit words: rotations, population count and bit
//! reversal, each with the meaning stated as a spec function.
use vstd::arithmetic::div_mod::{
    lemma_div_denominator, lemma_fundamental_div_mod, lemma_fundamental_div_mod_converse,
    lemma_mod_multiples_vanish, lemma_mod_pos_bound,
};
use vstd::arithmetic::power2::{lemma2_to64, lemma_pow2_adds, lemma_pow2_pos, lemma_pow2_unfold, pow2};
use vstd::bits::{lemma_u32_pow2_no_overflow, lemma_u32_shl_is_mul, lemma_u32_shr_is_div};
use vstd::prelude::*;

verus! {

/// `x` rotated left by `n` positions; only `n % 32` matters.
pub open spec fn rotate_left_spec(x: u32, n: u32) -> u32 {
    let k = n % 32;
    if k == 0 {
        x
    } else {
        (x << k) | (x >> ((32 - k) as u32))
    }
}

/// `x` rotated right by `n` positions; only `n % 32` matters.
pub open spec fn rotate_right_spec(x: u32, n: u32) -> u32 {
    let k = n % 32;
    if k == 0 {
        x
    } else {
        (x >> k) | (x << ((32 - k) as u32))
    }
}

/// Number of one bits in the binary representation of `n`.
pub open spec fn ones(n: nat) -> nat
    decreases n,
{
    if n == 0 {
        0
    } else {
        n % 2 + ones(n / 2)
    }
}

/// The lowest `width` bits of `n` in reverse order: bit `i` of `n` becomes
/// bit `width - 1 - i` of the result, and bits of `n` at or above `width`
/// are dropped.
pub open spec fn reversed_bits(n: nat, width: nat) -> nat
    decreases width,
{
    if width == 0 {
        0
    } else {
        (n % 2) * pow2((width - 1) as nat) + reversed_bits(n / 2, (width - 1) as nat)
    }
}

/// Bit reversal of a whole 32-bit word.
pub open spec fn reverse_bits_spec(x: u32) -> u32 {
    reversed_bits(x as nat, 32) as u32
}

/// Rotates `x` left by `n` positions, as `u32::rotate_left` does.
pub fn rotate_left(x: u32, n: u32) -> (r: u32)
    ensures
        r == rotate_left_spec(x, n),
{
    let k = n % 32;
    if k == 0 {
        x
    } else {
        (x << k) | (x >> (32 - k))
    }
}

/// Rotates `x` right by `n` positions, as `u32::rotate_right` does.
pub fn rotate_right(x: u32, n: u32) -> (r: u32)
    ensures
        r == rotate_right_spec(x, n),
{
    let k = n % 32;
    if k == 0 {
        x
    } else {
        (x >> k) | (x << (32 - k))
    }
}

pub proof fn lemma_ones_le(n: nat)
    ensures
        ones(n) <= n,
    decreases n,
{
    if n > 0 {
        lemma_ones_le(n / 2);
    }
}

/// Counts the one bits of `x`, as `u32::count_ones` does.
pub fn count_ones(x: u32) -> (r: u32)
    ensures
        r == ones(x as nat),
{
    let mut rest = x;
    let mut count: u32 = 0;
    proof {
        lemma_ones_le(x as nat);
    }
    while rest != 0
        invariant
            count + ones(rest as nat) == ones(x as nat),
            ones(x as nat) <= x,
        decreases rest,
    {
        assert(rest & 1 == rest % 2 && rest >> 1 == rest / 2) by (bit_vector);
        count = count + (rest & 1);
        rest = rest >> 1;
    }
    count
}

proof fn lemma_reversed_bits_bound(n: nat, width: nat)
    ensures
        reversed_bits(n, width) < pow2(width),
    decreases width,
{
    if width == 0 {
        lemma2_to64();
    } else {
        lemma_reversed_bits_bound(n / 2, (width - 1) as nat);
        lemma_pow2_unfold(width);
        lemma_pow2_pos((width - 1) as nat);
        assert((n % 2) * pow2((width - 1) as nat) <= pow2((width - 1) as nat)) by (nonlinear_arith)
            requires
                n % 2 <= 1,
                pow2((width - 1) as nat) > 0,
        ;
    }
}

/// Reverses the order of the bits of `x`, as `u32::reverse_bits` does.
pub fn reverse_bits(x: u32) -> (r: u32)
    ensures
        r == reverse_bits_spec(x),
{
    let mut rest = x;
    let mut acc: u32 = 0;
    let mut i: u32 = 0;
    proof {
        lemma_reversed_bits_bound(x as nat, 32);
        lemma2_to64();
    }
    while i < 32
        invariant
            i <= 32,
            acc + reversed_bits(rest as nat, (32 - i) as nat) == reversed_bits(x as nat, 32),
            reversed_bits(x as nat, 32) < pow2(32),
            pow2(32) == 0x1_0000_0000,
        decreases 32 - i,
    {
        let bit = rest & 1;
        let shift = 31 - i;
        proof {
            assert(bit == rest % 2 && rest >> 1 == rest / 2) by (bit_vector)
                requires
                    bit == rest & 1,
            ;
            lemma_u32_pow2_no_overflow(shift as nat);
            assert(bit * pow2(shift as nat) <= u32::MAX) by (nonlinear_arith)
                requires
                    bit <= 1,
                    pow2(shift as nat) < u32::MAX,
            ;
            lemma_u32_shl_is_mul(bit, shift);
            assert(reversed_bits(rest as nat, (32 - i) as nat) == (rest % 2) * pow2(shift as nat)
                + reversed_bits((rest / 2) as nat, shift as nat));
        }
        acc = acc + (bit << shift);
        rest = rest >> 1;
        i = i + 1;
    }
    acc
}

/// Bit `i` of `x` (0 or 1), counting from the least significant bit.
pub open spec fn bit(x: u32, i: u32) -> u32 {
    (x >> i) & 1
}

/// Rotating left by `n` moves bit `j` of `x` to bit `(j + n) % 32`: bit `i`
/// of the result is bit `(i - n) mod 32` of `x`.
pub proof fn lemma_rotate_left_bits(x: u32, n: u32, i: u32)
    requires
        i < 32,
    ensures
        bit(rotate_left_spec(x, n), i) == bit(x, ((i + 32 - n % 32) % 32) as u32),
{
    let k = n % 32;
    let r = rotate_left_spec(x, n);
    if k == 0 {
        assert(bit(r, i) == bit(x, ((i + 32 - k) % 32) as u32)) by (bit_vector)
            requires
                r == x,
                k == 0,
                i < 32,
        ;
    } else {
        assert(bit(r, i) == bit(x, ((i + 32 - k) % 32) as u32)) by (bit_vector)
            requires
                r == (x << k) | (x >> ((32 - k) as u32)),
                0 < k < 32,
                i < 32,
        ;
    }
}

/// Rotating right by `n` moves bit `j` of `x` to bit `(j - n) mod 32`: bit
/// `i` of the result is bit `(i + n) % 32` of `x`.
pub proof fn lemma_rotate_right_bits(x: u32, n: u32, i: u32)
    requires
        i < 32,
    ensures
        bit(rotate_right_spec(x, n), i) == bit(x, ((i + n % 32) % 32) as u32),
{
    let k = n % 32;
    let r = rotate_right_spec(x, n);
    if k == 0 {
        assert(bit(r, i) == bit(x, ((i + k) % 32) as u32)) by (bit_vector)
            requires
                r == x,
                k == 0,
                i < 32,
        ;
    } else {
        assert(bit(r, i) == bit(x, ((i + k) % 32) as u32)) by (bit_vector)
            requires
                r == (x >> k) | (x << ((32 - k) as u32)),
                0 < k < 32,
                i < 32,
        ;
    }
}

/// In the reversal of the lowest `width` bits of `n`, bit `i` is bit
/// `width - 1 - i` of `n`.
pub proof fn lemma_reversed_bits_bit(n: nat, width: nat, i: nat)
    requires
        i < width,
    ensures
        (reversed_bits(n, width) / pow2(i)) % 2 == (n / pow2((width - 1 - i) as nat)) % 2,
    decreases width,
{
    let h = pow2((width - 1) as nat);
    let q = reversed_bits(n / 2, (width - 1) as nat);
    let b = n % 2;
    let r = reversed_bits(n, width);
    lemma_reversed_bits_bound(n / 2, (width - 1) as nat);
    lemma_pow2_pos((width - 1) as nat);
    lemma_pow2_pos(i);
    assert(r == b * h + q);
    if i == width - 1 {
        lemma_fundamental_div_mod_converse(r as int, h as int, b as int, q as int);
        lemma2_to64();
        assert(n / pow2(0) == n);
    } else {
        let p = pow2(i);
        let t = pow2((width - 1 - i) as nat);
        let u = pow2((width - 2 - i) as nat);
        lemma_pow2_adds(i, (width - 1 - i) as nat);
        assert(h == p * t);
        lemma_pow2_unfold((width - 1 - i) as nat);
        assert(t == 2 * u);
        lemma_fundamental_div_mod(q as int, p as int);
        lemma_mod_pos_bound(q as int, p as int);
        let qd = q / p;
        let qm = q % p;
        assert(r == (b * t + qd) * p + qm) by (nonlinear_arith)
            requires
                r == b * h + q,
                h == p * t,
                q == p * qd + qm,
        ;
        lemma_fundamental_div_mod_converse(r as int, p as int, (b * t + qd) as int, qm as int);
        assert(b * t + qd == 2 * (b * u) + qd) by (nonlinear_arith)
            requires
                t == 2 * u,
        ;
        lemma_mod_multiples_vanish((b * u) as int, qd as int, 2);
        lemma_reversed_bits_bit(n / 2, (width - 1) as nat, i);
        lemma_pow2_pos(u as nat);
        lemma_pow2_pos((width - 2 - i) as nat);
        lemma_div_denominator(n as int, 2, u as int);
    }
}

/// Reversing the bits of a word puts bit `31 - i` of `x` at bit `i`.
pub proof fn lemma_reverse_bits_bits(x: u32, i: u32)
    requires
        i < 32,
    ensures
        bit(reverse_bits_spec(x), i) == bit(x, (31 - i) as u32),
{
    let r = reversed_bits(x as nat, 32);
    lemma_reversed_bits_bound(x as nat, 32);
    lemma2_to64();
    let y = reverse_bits_spec(x);
    assert(y == r);
    lemma_reversed_bits_bit(x as nat, 32, i as nat);
    lemma_u32_shr_is_div(y, i);
    lemma_u32_shr_is_div(x, (31 - i) as u32);
    let ys = y >> i;
    let xs = x >> ((31 - i) as u32);
    assert(ys & 1 == ys % 2) by (bit_vector);
    assert(xs & 1 == xs % 2) by (bit_vector);
}

/// Bit `i` of an exclusive or is the exclusive or of the bits.
pub proof fn lemma_xor_bit(x: u32, y: u32, i: u32)
    requires
        i < 32,
    ensures
        bit(x ^ y, i) == bit(x, i) ^ bit(y, i),
{
    assert(((x ^ y) >> i) & 1 == ((x >> i) & 1) ^ ((y >> i) & 1)) by (bit_vector);
}

/// Number of one bits of `x` among positions `0` to `k - 1`.
pub open spec fn set_bits_below(x: u32, k: nat) -> nat
    decreases k,
{
    if k == 0 {
        0
    } else {
        set_bits_below(x, (k - 1) as nat) + bit(x, (k - 1) as u32) as nat
    }
}

proof fn lemma_set_bits_shift(x: u32, k: nat)
    requires
        k < 32,
    ensures
        set_bits_below(x, k + 1) == bit(x, 0) + set_bits_below(x >> 1u32, k),
    decreases k,
{
    if k > 0 {
        lemma_set_bits_shift(x, (k - 1) as nat);
        let kk = (k - 1) as u32;
        assert(bit(x >> 1u32, kk) == bit(x, (kk + 1) as u32)) by (bit_vector)
            requires
                kk < 31,
        ;
        assert((kk + 1) as u32 == k as u32);
        assert(set_bits_below(x, k + 1) == set_bits_below(x, k) + bit(x, k as u32) as nat);
        assert(set_bits_below(x >> 1u32, k) == set_bits_below(x >> 1u32, (k - 1) as nat) + bit(
            x >> 1u32,
            kk,
        ) as nat);
    } else {
        assert(set_bits_below(x, 1) == set_bits_below(x, 0) + bit(x, 0) as nat);
    }
}

proof fn lemma_ones_below(x: u32, k: nat)
    requires
        k <= 32,
        (x as nat) < pow2(k),
    ensures
        ones(x as nat) == set_bits_below(x, k),
    decreases k,
{
    if k == 0 {
        lemma2_to64();
    } else {
        let h = x >> 1u32;
        assert(h == x / 2 && bit(x, 0) == x % 2) by (bit_vector)
            requires
                h == x >> 1u32,
        ;
        lemma_pow2_unfold(k);
        lemma_ones_below(h, (k - 1) as nat);
        lemma_set_bits_shift(x, (k - 1) as nat);
    }
}

proof fn lemma_complement_bits_below(x: u32, k: nat)
    requires
        k <= 32,
    ensures
        set_bits_below(x, k) + set_bits_below(!x, k) == k,
    decreases k,
{
    if k > 0 {
        lemma_complement_bits_below(x, (k - 1) as nat);
        let i = (k - 1) as u32;
        assert(bit(x, i) + bit(!x, i) == 1) by (bit_vector)
            requires
                i < 32,
        ;
    }
}

/// The population count of a word is the number of its 32 bits that are
/// set; a word and its complement have 32 one bits between them.
pub proof fn lemma_ones_counts_bits(x: u32)
    ensures
        ones(x as nat) == set_bits_below(x, 32),
        ones(x as nat) + ones(!x as nat) == 32,
        ones(x as nat) <= 32,
{
    lemma2_to64();
    lemma_ones_below(x, 32);
    lemma_ones_below(!x, 32);
    lemma_complement_bits_below(x, 32);
}

} // verus!
