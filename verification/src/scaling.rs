//! Scaling a span of PWM steps by a pressure.
//!
//! The product of an integer span and a binary64 pressure is taken as
//! binary64 arithmetic takes it: the exact product is rounded to 53
//! significant bits, ties to even; the result is rounded to the nearest
//! integer, ties away from zero; and what does not fit 32 bits becomes the
//! largest 32-bit value. All of it is done on integers.

use crate::number::{magnitude, Number, HIDDEN_BIT, ONE_BITS, SIGN_BIT};
use vstd::arithmetic::div_mod::{lemma_fundamental_div_mod, lemma_mod_bound};
use vstd::arithmetic::power2::{
    lemma2_to64, lemma2_to64_rest, lemma_pow2_adds, lemma_pow2_pos,
    lemma_pow2_strictly_increases, lemma_pow2_unfold, pow2,
};
use vstd::prelude::*;

verus! {

/// The exponent field of the encoding: its eleven bits below the sign bit.
pub open spec fn exponent_field(x: Number) -> nat {
    (magnitude(x.bits()) / HIDDEN_BIT) as nat
}

/// The fraction field of the encoding: its low 52 bits.
pub open spec fn fraction_field(x: Number) -> nat {
    (magnitude(x.bits()) % HIDDEN_BIT) as nat
}

/// The integer significand of a finite number: its absolute value is
/// `significand(x)` times two to the power `exponent(x)`.
pub open spec fn significand(x: Number) -> nat {
    if exponent_field(x) == 0 {
        fraction_field(x)
    } else {
        fraction_field(x) + HIDDEN_BIT as nat
    }
}

/// The power of two that weighs the integer significand of a finite number.
pub open spec fn exponent(x: Number) -> int {
    if exponent_field(x) == 0 {
        -1074
    } else {
        exponent_field(x) - 1075
    }
}

/// The number of binary digits of `n`; 0 has none.
pub open spec fn bit_length(n: nat) -> nat
    decreases n,
{
    if n == 0 {
        0
    } else {
        1 + bit_length(n / 2)
    }
}

/// `n` divided by two to the power `s`, rounded to the nearest integer, a
/// tie going to the even neighbour.
pub open spec fn round_ties_even(n: nat, s: nat) -> nat {
    let d = pow2(s);
    let q = n / d;
    let r = n % d;
    if 2 * r > d || (2 * r == d && q % 2 == 1) {
        q + 1
    } else {
        q
    }
}

/// `n` times two to the power `e`, rounded to the nearest integer, a tie
/// going upward.
pub open spec fn round_ties_away(n: nat, e: int) -> nat {
    if e >= 0 {
        n * pow2(e as nat)
    } else {
        (2 * n + pow2((-e) as nat)) / (2 * pow2((-e) as nat))
    }
}

/// The number of low bits that a number loses when it is rounded to 53
/// significant bits.
pub open spec fn dropped_bits(n: nat) -> nat {
    if bit_length(n) > 53 {
        (bit_length(n) - 53) as nat
    } else {
        0
    }
}

/// The number of steps that the pressure `percent` takes out of `span`:
/// the binary64 product of the two, rounded to the nearest integer and held
/// to 32 bits. The product of 0 and infinity counts as 0.
pub open spec fn scaled_steps(span: u32, percent: Number) -> nat {
    let n = span as nat * significand(percent);
    if n == 0 {
        0
    } else if percent.is_infinite() {
        u32::MAX as nat
    } else {
        let shift = dropped_bits(n);
        let rounded = round_ties_even(n, shift);
        let steps = round_ties_away(rounded, exponent(percent) + shift);
        if steps > u32::MAX {
            u32::MAX as nat
        } else {
            steps
        }
    }
}

/// A positive number lies between the powers of two that its length names.
pub proof fn lemma_bit_length_bounds(n: nat)
    requires
        n > 0,
    ensures
        bit_length(n) >= 1,
        pow2((bit_length(n) - 1) as nat) <= n < pow2(bit_length(n)),
    decreases n,
{
    lemma2_to64();
    if n == 1 {
        assert(bit_length(1) == 1 + bit_length(0));
    } else {
        let h = n / 2;
        lemma_bit_length_bounds(h);
        lemma_pow2_unfold(bit_length(h));
        lemma_pow2_unfold(bit_length(n));
    }
}

/// A number below two to the power `k` has at most `k` binary digits.
pub proof fn lemma_bit_length_at_most(n: nat, k: nat)
    requires
        n < pow2(k),
    ensures
        bit_length(n) <= k,
{
    if n > 0 && bit_length(n) > k {
        lemma_bit_length_bounds(n);
        if bit_length(n) - 1 > k {
            lemma_pow2_strictly_increases(k, (bit_length(n) - 1) as nat);
        }
    }
}

pub(crate) proof fn lemma_pow2_85()
    ensures
        pow2(85) == 0x20_0000_0000_0000_0000_0000,
{
    lemma2_to64();
    lemma_pow2_adds(64, 21);
}

pub(crate) proof fn lemma_pow2_128()
    ensures
        pow2(128) == 0x1_0000_0000_0000_0000_0000_0000_0000_0000,
{
    lemma2_to64();
    lemma_pow2_adds(64, 64);
}

/// Where `x` is at most `k` times `d`, the quotient of `x` by `d` is at most
/// `k`, and reaches `k` only without a remainder.
pub proof fn lemma_quotient_bound(x: nat, k: nat, d: nat)
    requires
        d > 0,
        x <= k * d,
    ensures
        x / d <= k,
        x / d == k ==> x % d == 0,
{
    lemma_fundamental_div_mod(x as int, d as int);
    lemma_mod_bound(x as int, d as int);
    let q = x / d;
    let r = x % d;
    assert(q <= k && (q == k ==> r == 0)) by (nonlinear_arith)
        requires
            x == d * q + r,
            0 <= r < d,
            x <= k * d,
            d > 0,
    ;
}

/// Where `x` is at least `k` times `d`, the quotient of `x` by `d` is at
/// least `k`; where `x` is below `k` times `d`, the quotient is below `k`.
pub proof fn lemma_quotient_order(x: nat, k: nat, d: nat)
    requires
        d > 0,
    ensures
        x >= k * d ==> x / d >= k,
        x < k * d ==> x / d < k,
{
    lemma_fundamental_div_mod(x as int, d as int);
    lemma_mod_bound(x as int, d as int);
    let q = x / d;
    let r = x % d;
    assert((x >= k * d ==> q >= k) && (x < k * d ==> q < k)) by (nonlinear_arith)
        requires
            x == d * q + r,
            0 <= r < d,
            d > 0,
    ;
}

/// Rounding to the nearest integer never passes an integer bound.
pub proof fn lemma_round_ties_even_bound(n: nat, s: nat, k: nat)
    requires
        n <= k * pow2(s),
    ensures
        round_ties_even(n, s) <= k,
{
    lemma_pow2_pos(s);
    lemma_quotient_bound(n, k, pow2(s));
}

/// Rounding to the nearest integer never falls below an integer bound.
pub proof fn lemma_round_ties_even_floor(n: nat, s: nat, k: nat)
    requires
        n >= k * pow2(s),
    ensures
        round_ties_even(n, s) >= k,
{
    lemma_pow2_pos(s);
    lemma_quotient_order(n, k, pow2(s));
}

/// Rounding away at a negative exponent never passes an integer bound.
pub proof fn lemma_round_ties_away_bound(n: nat, t: nat, k: nat)
    requires
        t > 0,
        n <= k * pow2(t),
    ensures
        round_ties_away(n, -(t as int)) <= k,
{
    lemma_pow2_pos(t);
    let p = pow2(t);
    assert(2 * n + p < (k + 1) * (2 * p)) by (nonlinear_arith)
        requires
            n <= k * p,
            p > 0,
    ;
    lemma_quotient_order(2 * n + p, k + 1, 2 * p);
}

/// The significand that a number keeps when it is rounded to 53 significant
/// bits has at most 53 bits, and 53 where bits were dropped.
pub proof fn lemma_rounded_significand(n: nat)
    requires
        n > 0,
    ensures
        round_ties_even(n, dropped_bits(n)) <= pow2(53),
        dropped_bits(n) == 0 ==> round_ties_even(n, dropped_bits(n)) == n,
        dropped_bits(n) > 0 ==> round_ties_even(n, dropped_bits(n)) >= pow2(52),
{
    lemma_bit_length_bounds(n);
    lemma2_to64();
    let len = bit_length(n);
    let s = dropped_bits(n);
    if s == 0 {
        assert(n / 1 == n && n % 1 == 0);
        if len < 53 {
            lemma_pow2_strictly_increases(len, 53);
        }
    } else {
        lemma_pow2_adds(53, s);
        lemma_pow2_adds(52, s);
        lemma_round_ties_even_bound(n, s, pow2(53));
        lemma_round_ties_even_floor(n, s, pow2(52));
    }
}

/// Two to the power `k`.
pub(crate) fn power_of_two(k: u32) -> (p: u128)
    requires
        k <= 64,
    ensures
        p == pow2(k as nat),
        p <= 0x1_0000_0000_0000_0000,
{
    let mut p: u128 = 1;
    let mut i: u32 = 0;
    proof {
        lemma2_to64();
    }
    while i < k
        invariant
            i <= k <= 64,
            p == pow2(i as nat),
            pow2(64) == 0x1_0000_0000_0000_0000,
        decreases k - i,
    {
        proof {
            lemma_pow2_unfold((i + 1) as nat);
            if i + 1 < 64 {
                lemma_pow2_strictly_increases((i + 1) as nat, 64);
            }
        }
        p = p * 2;
        i = i + 1;
    }
    proof {
        if k < 64 {
            lemma_pow2_strictly_increases(k as nat, 64);
        }
    }
    p
}

/// The number of binary digits of `n`.
pub(crate) fn bit_length_of(n: u128) -> (len: u32)
    ensures
        len == bit_length(n as nat),
        len <= 128,
{
    let mut rest: u128 = n;
    let mut len: u32 = 0;
    proof {
        lemma_pow2_128();
    }
    while rest > 0
        invariant
            len <= 128,
            rest < pow2((128 - len) as nat),
            bit_length(n as nat) == len + bit_length(rest as nat),
        decreases rest,
    {
        proof {
            if len == 128 {
                lemma2_to64();
            }
            lemma_pow2_unfold((128 - len) as nat);
        }
        rest = rest / 2;
        len = len + 1;
    }
    len
}

/// `n` divided by two to the power `s`, rounded to the nearest integer,
/// ties to even.
pub(crate) fn rounded_shift(n: u128, s: u32) -> (r: u128)
    requires
        s <= 64,
        n < pow2(85),
    ensures
        r == round_ties_even(n as nat, s as nat),
{
    proof {
        lemma_pow2_85();
        lemma_pow2_pos(s as nat);
    }
    let d = power_of_two(s);
    let q = n / d;
    let r = n % d;
    if 2 * r > d || (2 * r == d && q % 2 == 1) {
        q + 1
    } else {
        q
    }
}

/// The number of steps that the pressure `percent` takes out of `span`.
pub fn scale(span: u32, percent: Number) -> (steps: u32)
    requires
        percent.wf(),
        percent.rank() >= 0,
    ensures
        steps == scaled_steps(span, percent),
{
    let bits = percent.to_bits();
    let mag: u64 = if bits >= SIGN_BIT {
        bits - SIGN_BIT
    } else {
        bits
    };
    let field: u64 = mag / HIDDEN_BIT;
    let fraction: u64 = mag % HIDDEN_BIT;
    let m: u64 = if field == 0 {
        fraction
    } else {
        fraction + HIDDEN_BIT
    };
    if span == 0 || m == 0 {
        assert(span as nat * significand(percent) == 0) by (nonlinear_arith)
            requires
                span == 0 || significand(percent) == 0,
        ;
        return 0;
    }
    assert(span as nat * significand(percent) > 0) by (nonlinear_arith)
        requires
            span > 0,
            significand(percent) > 0,
    ;
    if field == 2047 {
        return u32::MAX;
    }
    assert(span as nat * significand(percent) < 0x20_0000_0000_0000_0000_0000) by (nonlinear_arith)
        requires
            span < 0x1_0000_0000,
            significand(percent) < 0x20_0000_0000_0000,
    ;
    assert(field > 0 ==> span as nat * significand(percent) >= 0x10_0000_0000_0000)
        by (nonlinear_arith)
        requires
            span > 0,
            field > 0 ==> significand(percent) >= 0x10_0000_0000_0000,
    ;
    let n: u128 = (span as u128) * (m as u128);
    proof {
        lemma_pow2_85();
        lemma2_to64();
        lemma2_to64_rest();
        lemma_rounded_significand(n as nat);
    }
    let length = bit_length_of(n);
    proof {
        lemma_bit_length_at_most(n as nat, 85);
    }
    let shift: u32 = if length > 53 {
        length - 53
    } else {
        0
    };
    let rounded = rounded_shift(n, shift);
    let biased: u32 = if field == 0 {
        1 + shift
    } else {
        field as u32 + shift
    };
    assert(exponent(percent) + dropped_bits(n as nat) == biased - 1075);
    if biased >= 1075 {
        proof {
            let e = (biased - 1075) as nat;
            lemma_pow2_pos(e);
            assert(rounded * pow2(e) >= 0x10_0000_0000_0000) by (nonlinear_arith)
                requires
                    rounded >= 0x10_0000_0000_0000,
                    pow2(e) > 0,
            ;
        }
        return u32::MAX;
    }
    let t: u32 = 1075 - biased;
    if t >= 55 {
        proof {
            if t > 55 {
                lemma_pow2_strictly_increases(55, t as nat);
            }
            lemma_quotient_order(2 * (rounded as nat) + pow2(t as nat), 1, 2 * pow2(t as nat));
        }
        return 0;
    }
    proof {
        if t < 54 {
            lemma_pow2_strictly_increases(t as nat, 54);
        }
    }
    let half = power_of_two(t);
    let steps: u128 = (2 * rounded + half) / (2 * half);
    if steps > u32::MAX as u128 {
        u32::MAX
    } else {
        steps as u32
    }
}

/// A pressure between 0 and 1 takes no more steps than the span has.
pub proof fn lemma_scaled_within_span(span: u32, percent: Number)
    requires
        percent.wf(),
        0 <= percent.rank() <= ONE_BITS,
    ensures
        scaled_steps(span, percent) <= span,
{
    let m = significand(percent);
    let n = span as nat * m;
    if n > 0 {
        lemma2_to64();
        lemma2_to64_rest();
        lemma_pow2_85();
        let t = (-exponent(percent)) as nat;
        assert(t >= 52);
        assert(m <= pow2(t)) by {
            if exponent_field(percent) == 1023 {
            } else if exponent_field(percent) == 0 {
                lemma_pow2_strictly_increases(52, t);
            } else {
                if t > 53 {
                    lemma_pow2_strictly_increases(53, t);
                }
            }
        }
        assert(n < 0x20_0000_0000_0000_0000_0000) by (nonlinear_arith)
            requires
                n == span as nat * m,
                span < 0x1_0000_0000,
                m < 0x20_0000_0000_0000,
        ;
        lemma_bit_length_at_most(n, 85);
        let s = dropped_bits(n);
        let t1 = (t - s) as nat;
        lemma_pow2_adds(t1, s);
        let k = span as nat * pow2(t1);
        assert(n <= k * pow2(s)) by (nonlinear_arith)
            requires
                n == span as nat * m,
                m <= pow2(t),
                pow2(t) == pow2(t1) * pow2(s),
                k == span as nat * pow2(t1),
        ;
        lemma_round_ties_even_bound(n, s, k);
        let rounded = round_ties_even(n, s);
        assert(rounded <= span as nat * pow2(t1));
        lemma_round_ties_away_bound(rounded, t1, span as nat);
        assert(exponent(percent) + s == -(t1 as int));
    }
}

/// The pressure 0 takes no step.
pub proof fn lemma_scaled_by_zero(span: u32)
    ensures
        scaled_steps(span, Number::zero()) == 0,
{
    Number::lemma_of_bits(0);
    assert(significand(Number::zero()) == 0);
    assert(span as nat * significand(Number::zero()) == 0) by (nonlinear_arith)
        requires
            significand(Number::zero()) == 0,
    ;
}

/// The pressure 1 takes the whole span.
pub proof fn lemma_scaled_by_one(span: u32)
    ensures
        scaled_steps(span, Number::one()) == span,
{
    Number::lemma_of_bits(ONE_BITS);
    let one = Number::one();
    lemma2_to64();
    lemma2_to64_rest();
    lemma_pow2_85();
    assert(exponent_field(one) == 1023);
    assert(significand(one) == pow2(52));
    let n = span as nat * pow2(52);
    if span > 0 {
        assert(n > 0 && n < 0x20_0000_0000_0000_0000_0000 && n == span as nat * pow2(52))
            by (nonlinear_arith)
            requires
                n == span as nat * pow2(52),
                pow2(52) == 0x10_0000_0000_0000,
                0 < span < 0x1_0000_0000,
        ;
        lemma_bit_length_at_most(n, 85);
        let s = dropped_bits(n);
        let t1 = (52 - s) as nat;
        lemma_pow2_adds(t1, s);
        lemma_pow2_pos(t1);
        lemma_pow2_pos(s);
        let k = span as nat * pow2(t1);
        assert(n == k * pow2(s)) by (nonlinear_arith)
            requires
                n == span as nat * pow2(52),
                pow2(52) == pow2(t1) * pow2(s),
                k == span as nat * pow2(t1),
        ;
        lemma_round_ties_even_bound(n, s, k);
        lemma_round_ties_even_floor(n, s, k);
        let p = pow2(t1);
        assert(2 * k + p >= span as nat * (2 * p) && 2 * k + p < (span as nat + 1) * (2 * p))
            by (nonlinear_arith)
            requires
                k == span as nat * p,
                p > 0,
        ;
        lemma_quotient_order(2 * k + p, span as nat, 2 * p);
        lemma_quotient_order(2 * k + p, span as nat + 1, 2 * p);
    } else {
        assert(n == 0) by (nonlinear_arith)
            requires
                n == span as nat * pow2(52),
                span == 0,
        ;
    }
}

} // verus!
