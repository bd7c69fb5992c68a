//! From the raw reading of a sensor to its value.
//!
//! A sensor file holds a whole number of thousandths. Its value is the
//! binary64 quotient of that number by 1000: the raw reading is rounded to
//! 53 significant bits, and so is the exact quotient of the result by 1000,
//! ties going to even both times. All of it is done on integers.

use crate::number::{Number, HIDDEN_BIT};
use crate::scaling::{
    bit_length, bit_length_of, lemma_bit_length_at_most, lemma_bit_length_bounds, lemma_pow2_128,
    lemma_quotient_order, lemma_rounded_significand, power_of_two, dropped_bits, round_ties_even,
    rounded_shift,
};
use vstd::arithmetic::div_mod::lemma_div_denominator;
use vstd::arithmetic::power2::{
    lemma2_to64, lemma2_to64_rest, lemma_pow2_adds, lemma_pow2_pos, lemma_pow2_strictly_increases,
    pow2,
};
use vstd::prelude::*;

verus! {

/// The quotient of `num` by `den`, rounded to the nearest integer, a tie
/// going to the even neighbour.
pub open spec fn round_ratio_ties_even(num: nat, den: nat) -> nat {
    let q = num / den;
    let r = num % den;
    if 2 * r > den || (2 * r == den && q % 2 == 1) {
        q + 1
    } else {
        q
    }
}

/// The significand of the raw reading as a binary64: the reading rounded
/// to 53 significant bits.
pub open spec fn raw_significand(raw: u64) -> nat {
    round_ties_even(raw as nat, dropped_bits(raw as nat))
}

/// The number of low bits that the quotient, taken at 63 binary places,
/// loses when it is rounded to 53 significant bits.
pub open spec fn quotient_shift(raw: u64) -> nat {
    (bit_length(raw_significand(raw) * pow2(63) / 1000) - 53) as nat
}

/// The significand of the quotient: 53 significant bits of the raw
/// significand divided by 1000.
pub open spec fn quotient_significand(raw: u64) -> nat {
    round_ratio_ties_even(raw_significand(raw) * pow2(63), 1000 * pow2(quotient_shift(raw)))
}

/// The binary64 encoding of the value of a raw reading: of the quotient of
/// the reading by 1000. The quotient is its significand times two to the
/// power of `quotient_shift(raw) + dropped_bits(raw) - 63`, and the
/// encoding is made of that exponent, raised by 1075, above the 52 low bits
/// of the significand.
pub open spec fn degrees_bits(raw: u64) -> nat {
    if raw == 0 {
        0
    } else {
        ((quotient_shift(raw) + dropped_bits(raw as nat) + 1012) * pow2(52)
            + quotient_significand(raw) - pow2(52)) as nat
    }
}

/// The value of a raw reading: the binary64 quotient of the reading by
/// 1000.
pub fn degrees(raw: u64) -> (value: Number)
    ensures
        value.bits() == degrees_bits(raw),
        value.wf(),
        value.rank() >= 0,
{
    if raw == 0 {
        return Number::zero();
    }
    proof {
        lemma2_to64();
        lemma2_to64_rest();
        lemma_pow2_128();
        lemma_pow2_adds(64, 21);
        lemma_bit_length_at_most(raw as nat, 64);
        lemma_rounded_significand(raw as nat);
    }
    let length = bit_length_of(raw as u128);
    let lost: u32 = if length > 53 {
        length - 53
    } else {
        0
    };
    let a = rounded_shift(raw as u128, lost);
    assert(1 <= a <= 0x20_0000_0000_0000);
    let scaled: u128 = a * 0x8000_0000_0000_0000;
    let floor: u128 = scaled / 1000;
    assert(0x20_0000_0000_0000 < floor < 0x800_0000_0000_0000_0000_0000_0000);
    proof {
        lemma_pow2_adds(64, 43);
        lemma_bit_length_at_most(floor as nat, 107);
        lemma_bit_length_bounds(floor as nat);
        if bit_length(floor as nat) <= 53 {
            if bit_length(floor as nat) < 53 {
                lemma_pow2_strictly_increases(bit_length(floor as nat), 53);
            }
        }
    }
    let shift: u32 = bit_length_of(floor) - 53;
    proof {
        if shift < 54 {
            lemma_pow2_strictly_increases(shift as nat, 54);
        }
        lemma_pow2_pos(shift as nat);
        lemma_pow2_adds(52, shift as nat);
        lemma_pow2_adds(53, shift as nat);
    }
    let unit = power_of_two(shift);
    let den: u128 = 1000 * unit;
    let q: u128 = scaled / den;
    let rem: u128 = scaled % den;
    proof {
        lemma_div_denominator(scaled as int, 1000, unit as int);
        assert(q == floor / unit);
        lemma_quotient_order(floor as nat, pow2(52), unit as nat);
        lemma_quotient_order(floor as nat, pow2(53), unit as nat);
        assert(0x10_0000_0000_0000 <= q < 0x20_0000_0000_0000);
    }
    let significand: u128 = if 2 * rem > den || (2 * rem == den && q % 2 == 1) {
        q + 1
    } else {
        q
    };
    let biased: u64 = (shift + lost) as u64 + 1012;
    assert(biased * HIDDEN_BIT <= 1077 * 0x10_0000_0000_0000) by (nonlinear_arith)
        requires
            biased <= 1077,
            HIDDEN_BIT == 0x10_0000_0000_0000,
    ;
    let bits: u64 = biased * HIDDEN_BIT + (significand - HIDDEN_BIT as u128) as u64;
    Number::of_number_bits(bits)
}

} // verus!
