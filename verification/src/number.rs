//! Numbers as IEEE 754 binary64 encodings.
//!
//! A [`Number`] is the 64-bit encoding of a number that is not a NaN. The crate
//! performs no rounding arithmetic on such values; it orders them, clamps
//! them, and reads their sign, exponent and significand.

use vstd::prelude::*;

verus! {

/// Encoding of the sign bit alone, which is the encoding of negative zero.
pub const SIGN_BIT: u64 = 0x8000_0000_0000_0000;

/// Encoding of positive infinity; every larger magnitude encodes a NaN.
pub const INFINITY_BITS: u64 = 0x7FF0_0000_0000_0000;

/// Encoding of 1.0.
pub const ONE_BITS: u64 = 0x3FF0_0000_0000_0000;

/// Two to the 52nd power: the weight of the hidden bit of a significand.
pub const HIDDEN_BIT: u64 = 0x0010_0000_0000_0000;

/// The encoding with its sign bit cleared.
pub open spec fn magnitude(bits: u64) -> u64 {
    if bits >= SIGN_BIT {
        (bits - SIGN_BIT) as u64
    } else {
        bits
    }
}

/// Whether the sign bit of the encoding is set.
pub open spec fn sign_set(bits: u64) -> bool {
    bits >= SIGN_BIT
}

/// Whether the encoding is one of a NaN.
pub open spec fn is_nan(bits: u64) -> bool {
    magnitude(bits) > INFINITY_BITS
}

/// A number that is not a NaN, held as its binary64 encoding.
#[derive(Clone, Copy, Debug, PartialEq, Eq)]
pub struct Number {
    bits: u64,
}

impl Number {
    /// The binary64 encoding of the number.
    pub closed spec fn bits(self) -> u64 {
        self.bits
    }

    /// The encoding is not one of a NaN.
    pub open spec fn wf(self) -> bool {
        !is_nan(self.bits())
    }

    /// An integer that orders numbers as their values are ordered: `a` is
    /// less than `b` exactly when `a.rank() < b.rank()`, and the two zeros,
    /// which are equal as numbers, share the rank 0.
    pub open spec fn rank(self) -> int {
        if sign_set(self.bits()) {
            -(magnitude(self.bits()) as int)
        } else {
            magnitude(self.bits()) as int
        }
    }

    /// The number is positive or negative infinity.
    pub open spec fn is_infinite(self) -> bool {
        magnitude(self.bits()) == INFINITY_BITS
    }

    /// The number with the given encoding.
    pub closed spec fn of(bits: u64) -> Number {
        Number { bits }
    }

    /// `of` and `bits` are inverse to each other.
    pub broadcast proof fn lemma_of_bits(bits: u64)
        ensures
            (#[trigger] Number::of(bits)).bits() == bits,
    {
    }

    /// A number is determined by its encoding.
    pub proof fn lemma_bits_determine(self, other: Number)
        requires
            self.bits() == other.bits(),
        ensures
            self == other,
    {
    }

    /// The number 0.
    pub open spec fn spec_zero() -> Number {
        Number::of(0)
    }

    /// The number 1.
    pub open spec fn spec_one() -> Number {
        Number::of(ONE_BITS)
    }

    /// Positive infinity.
    pub open spec fn spec_infinity() -> Number {
        Number::of(INFINITY_BITS)
    }

    /// Accepts an encoding unless it is one of a NaN.
    pub fn from_bits(bits: u64) -> (r: Option<Number>)
        ensures
            is_nan(bits) <==> r is None,
            r matches Some(x) ==> x == Number::of(bits) && x.bits() == bits,
    {
        let m: u64 = if bits >= SIGN_BIT {
            bits - SIGN_BIT
        } else {
            bits
        };
        if m > INFINITY_BITS {
            None
        } else {
            Some(Number { bits })
        }
    }

    /// The number with an encoding that is known not to be one of a NaN.
    pub(crate) fn of_number_bits(bits: u64) -> (r: Number)
        requires
            !is_nan(bits),
        ensures
            r == Number::of(bits),
            r.bits() == bits,
    {
        Number { bits }
    }

    /// The binary64 encoding of the number.
    pub fn to_bits(self) -> (b: u64)
        ensures
            b == self.bits(),
    {
        self.bits
    }

    /// The number 0.
    #[verifier::when_used_as_spec(spec_zero)]
    pub fn zero() -> (r: Number)
        ensures
            r == Number::spec_zero(),
            r.bits() == 0,
    {
        Number { bits: 0 }
    }

    /// The number 1.
    #[verifier::when_used_as_spec(spec_one)]
    pub fn one() -> (r: Number)
        ensures
            r == Number::spec_one(),
            r.bits() == ONE_BITS,
    {
        Number { bits: ONE_BITS }
    }

    /// Positive infinity.
    #[verifier::when_used_as_spec(spec_infinity)]
    pub fn infinity() -> (r: Number)
        ensures
            r == Number::spec_infinity(),
            r.bits() == INFINITY_BITS,
    {
        Number { bits: INFINITY_BITS }
    }

    /// Whether the number is greater than `other`.
    pub fn gt(self, other: Number) -> (b: bool)
        ensures
            b == (self.rank() > other.rank()),
    {
        let a_neg = self.bits >= SIGN_BIT;
        let b_neg = other.bits >= SIGN_BIT;
        let a_mag: u64 = if a_neg {
            self.bits - SIGN_BIT
        } else {
            self.bits
        };
        let b_mag: u64 = if b_neg {
            other.bits - SIGN_BIT
        } else {
            other.bits
        };
        if a_neg {
            b_neg && a_mag < b_mag
        } else if b_neg {
            a_mag > 0 || b_mag > 0
        } else {
            a_mag > b_mag
        }
    }

    /// Whether the number is less than `other`.
    pub fn lt(self, other: Number) -> (b: bool)
        ensures
            b == (self.rank() < other.rank()),
    {
        other.gt(self)
    }

    /// Whether the number is zero or above; negative zero counts as zero.
    pub fn is_non_negative(self) -> (b: bool)
        ensures
            b == (self.rank() >= 0),
    {
        self.bits <= SIGN_BIT
    }

    /// The number held to the range from `min` to `max`: `max` where the
    /// number is above it, else `min` where it is below, else the number
    /// itself.
    pub open spec fn spec_clamped(self, min: Number, max: Number) -> Number {
        if self.rank() > max.rank() {
            max
        } else if self.rank() < min.rank() {
            min
        } else {
            self
        }
    }

    /// The number held to the range from `min` to `max`.
    #[verifier::when_used_as_spec(spec_clamped)]
    pub fn clamped(self, min: Number, max: Number) -> (r: Number)
        ensures
            r == self.spec_clamped(min, max),
    {
        if self.gt(max) {
            max
        } else if self.lt(min) {
            min
        } else {
            self
        }
    }
}

/// A clamped number lies within the range, and a number within the range is
/// left as it is.
pub proof fn lemma_clamped_in_range(value: Number, min: Number, max: Number)
    requires
        min.rank() <= max.rank(),
    ensures
        min.rank() <= value.spec_clamped(min, max).rank() <= max.rank(),
        min.rank() <= value.rank() <= max.rank() ==> value.spec_clamped(min, max) == value,
        value.wf() && min.wf() && max.wf() ==> value.spec_clamped(min, max).wf(),
{
}

} // verus!
