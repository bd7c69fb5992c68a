//! More pressure never takes fewer steps.
//!
//! The steps that a pressure takes out of a span are rounded twice, and
//! each rounding keeps the order of what it rounds. This module proves it,
//! on the way showing that the rounding of a product depends on the value
//! of the product alone and not on how significand and exponent share it.

use crate::number::{magnitude, Number, INFINITY_BITS};
use crate::scaling::{
    bit_length, exponent, exponent_field, lemma_bit_length_bounds,
    lemma_rounded_significand, dropped_bits, round_ties_away, round_ties_even, scaled_steps,
    significand,
};
use vstd::arithmetic::div_mod::{
    lemma_div_is_ordered, lemma_fundamental_div_mod, lemma_fundamental_div_mod_converse,
    lemma_mod_bound,
};
use vstd::arithmetic::power2::{
    lemma2_to64, lemma2_to64_rest, lemma_pow2_adds, lemma_pow2_pos,
    lemma_pow2_strictly_increases, lemma_pow2_unfold, pow2,
};
use vstd::prelude::*;

verus! {

/// `x` rounded to 53 significant bits, ties to even.
pub open spec fn rounded(x: nat) -> nat {
    round_ties_even(x, dropped_bits(x)) * pow2(dropped_bits(x))
}

/// The value of a finite number that is not negative, in units of two to
/// the power -1074.
pub open spec fn fine_value(x: Number) -> nat {
    significand(x) * pow2((exponent(x) + 1074) as nat)
}

/// A common factor of dividend and divisor leaves the quotient as it is and
/// multiplies the remainder.
pub proof fn lemma_scaled_division(n: nat, d: nat, k: nat)
    requires
        d > 0,
        k > 0,
    ensures
        d * k > 0,
        (n * k) / (d * k) == n / d,
        (n * k) % (d * k) == (n % d) * k,
{
    lemma_fundamental_div_mod(n as int, d as int);
    lemma_mod_bound(n as int, d as int);
    let q = n / d;
    let r = n % d;
    assert(n * k == q * (d * k) + r * k && 0 <= r * k < d * k && d * k > 0) by (nonlinear_arith)
        requires
            n == d * q + r,
            0 <= r < d,
            k > 0,
    ;
    lemma_fundamental_div_mod_converse((n * k) as int, (d * k) as int, q as int, (r * k) as int);
}

/// A multiple of a power of two is divided by that power without rounding.
pub proof fn lemma_round_ties_even_exact(c: nat, g: nat)
    ensures
        round_ties_even(c * pow2(g), g) == c,
{
    lemma_pow2_pos(g);
    lemma_fundamental_div_mod_converse((c * pow2(g)) as int, pow2(g) as int, c as int, 0);
}

/// Rounding sees the value alone: a power of two more in both the number
/// and the divisor changes nothing.
pub proof fn lemma_round_ties_even_scaled(n: nat, s: nat, a: nat)
    ensures
        round_ties_even(n * pow2(a), s + a) == round_ties_even(n, s),
{
    lemma_pow2_adds(s, a);
    lemma_pow2_pos(s);
    lemma_pow2_pos(a);
    let d = pow2(s);
    let k = pow2(a);
    let r = n % d;
    lemma_scaled_division(n, d, k);
    assert((2 * (r * k) > d * k) == (2 * r > d) && (2 * (r * k) == d * k) == (2 * r == d))
        by (nonlinear_arith)
        requires
            k > 0,
    ;
}

/// Rounding keeps the order.
pub proof fn lemma_round_ties_even_monotone(a: nat, b: nat, s: nat)
    requires
        a <= b,
    ensures
        round_ties_even(a, s) <= round_ties_even(b, s),
{
    let d = pow2(s);
    lemma_pow2_pos(s);
    lemma_fundamental_div_mod(a as int, d as int);
    lemma_fundamental_div_mod(b as int, d as int);
    lemma_mod_bound(a as int, d as int);
    lemma_mod_bound(b as int, d as int);
    lemma_div_is_ordered(a as int, b as int, d as int);
    let qa = a / d;
    let qb = b / d;
    let ra = a % d;
    let rb = b % d;
    assert(qa == qb ==> ra <= rb) by (nonlinear_arith)
        requires
            a == d * qa + ra,
            b == d * qb + rb,
            a <= b,
    ;
}

/// A number times two to the power `a` has `a` binary digits more.
pub proof fn lemma_bit_length_scaled(n: nat, a: nat)
    requires
        n > 0,
    ensures
        n * pow2(a) > 0,
        bit_length(n * pow2(a)) == bit_length(n) + a,
    decreases a,
{
    lemma2_to64();
    if a == 0 {
        assert(n * pow2(0) == n);
    } else {
        let b = (a - 1) as nat;
        lemma_bit_length_scaled(n, b);
        lemma_pow2_unfold(a);
        let m = n * pow2(b);
        assert(n * pow2(a) == 2 * m) by (nonlinear_arith)
            requires
                pow2(a) == 2 * pow2(b),
                m == n * pow2(b),
        ;
        assert((2 * m) / 2 == m);
    }
}

/// A larger number has no fewer binary digits.
pub proof fn lemma_bit_length_monotone(x: nat, y: nat)
    requires
        x <= y,
    ensures
        bit_length(x) <= bit_length(y),
{
    if x > 0 && bit_length(x) > bit_length(y) {
        lemma_bit_length_bounds(x);
        lemma_bit_length_bounds(y);
        if bit_length(y) < bit_length(x) - 1 {
            lemma_pow2_strictly_increases(bit_length(y), (bit_length(x) - 1) as nat);
        }
    }
}

/// A rounded number lies between the powers of two that enclose the number.
pub proof fn lemma_rounded_bounds(x: nat)
    requires
        x > 0,
    ensures
        pow2((bit_length(x) - 1) as nat) <= rounded(x) <= pow2(bit_length(x)),
{
    lemma_rounded_significand(x);
    lemma_bit_length_bounds(x);
    lemma2_to64();
    let s = dropped_bits(x);
    let r = round_ties_even(x, s);
    if s == 0 {
        assert(r * pow2(0) == r);
    } else {
        lemma_pow2_adds(53, s);
        lemma_pow2_adds(52, s);
        lemma_pow2_pos(s);
        assert(pow2(52) * pow2(s) <= r * pow2(s) <= pow2(53) * pow2(s)) by (nonlinear_arith)
            requires
                pow2(52) <= r <= pow2(53),
                pow2(s) > 0,
        ;
    }
}

/// Rounding to 53 significant bits keeps the order.
pub proof fn lemma_rounded_monotone(x: nat, y: nat)
    requires
        0 < x <= y,
    ensures
        rounded(x) <= rounded(y),
{
    lemma_bit_length_monotone(x, y);
    lemma_rounded_bounds(x);
    lemma_rounded_bounds(y);
    if bit_length(x) < bit_length(y) {
        if bit_length(x) < bit_length(y) - 1 {
            lemma_pow2_strictly_increases(bit_length(x), (bit_length(y) - 1) as nat);
        }
    } else {
        let g = dropped_bits(x);
        lemma_round_ties_even_monotone(x, y, g);
        lemma_pow2_pos(g);
        assert(round_ties_even(x, g) * pow2(g) <= round_ties_even(y, g) * pow2(g))
            by (nonlinear_arith)
            requires
                round_ties_even(x, g) <= round_ties_even(y, g),
                pow2(g) > 0,
        ;
    }
}

/// The rounding of a product depends on its value alone: a significand
/// with its power of two rounds as their product does.
pub proof fn lemma_rounded_scaled(n: nat, a: nat)
    requires
        n > 0,
    ensures
        round_ties_even(n, dropped_bits(n)) * pow2(a + dropped_bits(n)) == rounded(
            n * pow2(a),
        ),
{
    let x = n * pow2(a);
    let s = dropped_bits(n);
    let g = dropped_bits(x);
    lemma_bit_length_scaled(n, a);
    lemma2_to64();
    if bit_length(n) > 53 {
        lemma_round_ties_even_scaled(n, s, a);
        assert(a + s == s + a);
    } else {
        assert(n / 1 == n && n % 1 == 0);
        assert(round_ties_even(n, 0) == n);
        if bit_length(x) > 53 {
            let rest = (a - g) as nat;
            lemma_pow2_adds(rest, g);
            let c = n * pow2(rest);
            assert(x == c * pow2(g)) by (nonlinear_arith)
                requires
                    x == n * pow2(a),
                    pow2(a) == pow2(rest) * pow2(g),
                    c == n * pow2(rest),
            ;
            lemma_round_ties_even_exact(c, g);
        } else {
            assert(x / 1 == x && x % 1 == 0);
            assert(x * pow2(0) == x);
        }
    }
}

/// Rounding to the nearest integer, written at the scale of two to the
/// power -1074.
pub proof fn lemma_round_ties_away_scaled(r: nat, e: int)
    requires
        e >= -1074,
    ensures
        round_ties_away(r, e) == (2 * (r * pow2((e + 1074) as nat)) + pow2(1074)) / (2 * pow2(
            1074,
        )),
{
    let unit = pow2(1074);
    lemma_pow2_pos(1074);
    if e >= 0 {
        let up = pow2(e as nat);
        lemma_pow2_adds(e as nat, 1074);
        let whole = r * up;
        assert(2 * (r * pow2((e + 1074) as nat)) + unit == whole * (2 * unit) + unit)
            by (nonlinear_arith)
            requires
                pow2((e + 1074) as nat) == up * unit,
                whole == r * up,
        ;
        lemma_fundamental_div_mod_converse(
            (2 * (r * pow2((e + 1074) as nat)) + unit) as int,
            (2 * unit) as int,
            whole as int,
            unit as int,
        );
    } else {
        let t = (-e) as nat;
        let k = pow2((1074 - t) as nat);
        let half = pow2(t);
        lemma_pow2_adds(t, (1074 - t) as nat);
        lemma_pow2_pos(t);
        lemma_pow2_pos((1074 - t) as nat);
        assert(2 * (r * k) + unit == (2 * r + half) * k && 2 * unit == (2 * half) * k)
            by (nonlinear_arith)
            requires
                unit == half * k,
        ;
        lemma_scaled_division(2 * r + half, 2 * half, k);
    }
}

/// Among finite numbers that are not negative, the value follows the
/// encoding.
pub proof fn lemma_fine_value_monotone(lower: Number, higher: Number)
    requires
        magnitude(lower.bits()) <= magnitude(higher.bits()) < INFINITY_BITS,
    ensures
        fine_value(lower) <= fine_value(higher),
{
    lemma2_to64();
    lemma2_to64_rest();
    let f1 = exponent_field(lower);
    let f2 = exponent_field(higher);
    let m1 = significand(lower);
    let m2 = significand(higher);
    let a1 = (exponent(lower) + 1074) as nat;
    let a2 = (exponent(higher) + 1074) as nat;
    assert(f1 <= f2);
    lemma_pow2_pos(a1);
    lemma_pow2_pos(a2);
    if f1 == f2 {
        assert(m1 * pow2(a1) <= m2 * pow2(a2)) by (nonlinear_arith)
            requires
                m1 <= m2,
                a1 == a2,
        ;
    } else if f1 == 0 {
        assert(m1 * pow2(a1) <= m2 * pow2(a2)) by (nonlinear_arith)
            requires
                m1 < 0x10_0000_0000_0000,
                pow2(a1) == 1,
                m2 >= 0x10_0000_0000_0000,
                pow2(a2) >= 1,
        ;
    } else {
        lemma_pow2_unfold((a1 + 1) as nat);
        if a1 + 1 < a2 {
            lemma_pow2_strictly_increases((a1 + 1) as nat, a2);
        }
        assert(m1 * pow2(a1) <= m2 * pow2(a2)) by (nonlinear_arith)
            requires
                m1 < 0x20_0000_0000_0000,
                m2 >= 0x10_0000_0000_0000,
                2 * pow2(a1) <= pow2(a2),
        ;
    }
}

/// The steps of a finite pressure above 0, read off the rounded product at
/// the scale of two to the power -1074.
proof fn lemma_steps_of_rounded(span: u32, percent: Number)
    requires
        percent.wf(),
        !percent.is_infinite(),
        span as nat * significand(percent) > 0,
    ensures
        ({
            let product = rounded(span as nat * fine_value(percent));
            let steps = (2 * product + pow2(1074)) / (2 * pow2(1074));
            scaled_steps(span, percent) == if steps > u32::MAX {
                u32::MAX as nat
            } else {
                steps
            }
        }),
{
    let n = span as nat * significand(percent);
    let a = (exponent(percent) + 1074) as nat;
    let s = dropped_bits(n);
    assert(span as nat * fine_value(percent) == n * pow2(a)) by (nonlinear_arith)
        requires
            fine_value(percent) == significand(percent) * pow2(a),
            n == span as nat * significand(percent),
    ;
    lemma_rounded_scaled(n, a);
    lemma_round_ties_away_scaled(round_ties_even(n, s), exponent(percent) + s);
    assert((exponent(percent) + s + 1074) as nat == a + s);
}

/// More pressure never takes fewer steps: of two pressures that are not
/// below 0, the higher takes as many steps out of a span as the lower, or
/// more.
pub proof fn lemma_scaled_steps_monotone(span: u32, lower: Number, higher: Number)
    requires
        lower.wf(),
        higher.wf(),
        0 <= lower.rank() <= higher.rank(),
    ensures
        scaled_steps(span, lower) <= scaled_steps(span, higher),
{
    let n1 = span as nat * significand(lower);
    let n2 = span as nat * significand(higher);
    lemma2_to64_rest();
    if n1 > 0 {
        assert(span > 0 && significand(lower) > 0) by (nonlinear_arith)
            requires
                span as nat * significand(lower) > 0,
        ;
        assert(magnitude(lower.bits()) > 0);
        assert(magnitude(higher.bits()) >= magnitude(lower.bits()));
        if higher.is_infinite() {
            assert(significand(higher) == pow2(52));
            assert(n2 > 0) by (nonlinear_arith)
                requires
                    n2 == span as nat * significand(higher),
                    span > 0,
                    significand(higher) > 0,
            ;
        } else {
            lemma_fine_value_monotone(lower, higher);
            let x1 = span as nat * fine_value(lower);
            let x2 = span as nat * fine_value(higher);
            lemma_pow2_pos((exponent(lower) + 1074) as nat);
            assert(0 < x1 <= x2 && n2 > 0) by (nonlinear_arith)
                requires
                    x1 == span as nat * fine_value(lower),
                    x2 == span as nat * fine_value(higher),
                    fine_value(lower) == significand(lower) * pow2(
                        (exponent(lower) + 1074) as nat,
                    ),
                    fine_value(lower) <= fine_value(higher),
                    significand(lower) > 0,
                    pow2((exponent(lower) + 1074) as nat) > 0,
                    span > 0,
                    n2 == span as nat * significand(higher),
                    significand(higher) > 0,
            ;
            lemma_rounded_monotone(x1, x2);
            lemma_steps_of_rounded(span, lower);
            lemma_steps_of_rounded(span, higher);
            lemma_pow2_pos(1074);
            lemma_div_is_ordered(
                (2 * rounded(x1) + pow2(1074)) as int,
                (2 * rounded(x2) + pow2(1074)) as int,
                (2 * pow2(1074)) as int,
            );
        }
    }
}

} // verus!
