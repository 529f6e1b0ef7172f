//! Numbers as the value model carries them: IEEE-754 double-precision values
//! held by their bit pattern, and worked on with integer arithmetic alone.

use vstd::prelude::*;

verus! {

/// The sign bit of a double-precision pattern.
pub const SIGN_BIT: u64 = 0x8000_0000_0000_0000;

/// The biased exponent of 1.0.
pub const EXPONENT_BIAS: u64 = 1023;

/// A double-precision number, held by its bit pattern.
#[derive(Clone, Copy, Debug, PartialEq, Eq, Structural)]
pub struct Number {
    pub bits: u64,
}

/// The biased exponent of a pattern: eleven bits.
pub open spec fn exponent_of(bits: u64) -> u64 {
    (bits >> 52) & 0x7ff
}

/// The fraction of a pattern: its low fifty-two bits.
pub open spec fn fraction_of(bits: u64) -> u64 {
    bits & 0xf_ffff_ffff_ffff
}

/// The integer part of the magnitude of a pattern whose unbiased exponent
/// `e` is between 0 and 52: the fraction with its implicit leading one,
/// without the `52 - e` bits that stand behind the binary point.
pub open spec fn integer_part(bits: u64) -> u64 {
    (fraction_of(bits) | 0x10_0000_0000_0000) >> ((1075 - exponent_of(bits)) as u64)
}

impl Number {
    /// Positive zero.
    pub open spec fn spec_zero() -> Number {
        Number { bits: 0 }
    }

    /// The number with the given pattern.
    pub fn from_bits(bits: u64) -> (n: Number)
        ensures
            n.bits == bits,
    {
        Number { bits }
    }

    /// Positive zero.
    #[verifier::when_used_as_spec(spec_zero)]
    pub fn zero() -> (n: Number)
        ensures
            n == Number::spec_zero(),
    {
        Number { bits: 0 }
    }

    /// Whether the sign bit is set.
    pub open spec fn is_negative(self) -> bool {
        self.bits & SIGN_BIT != 0
    }

    /// Whether the pattern is not a number.
    pub open spec fn is_nan(self) -> bool {
        exponent_of(self.bits) == 0x7ff && fraction_of(self.bits) != 0
    }

    /// The same magnitude with the opposite sign.
    pub open spec fn spec_negated(self) -> Number {
        Number { bits: self.bits ^ SIGN_BIT }
    }

    /// The same magnitude with the opposite sign: only the sign bit changes.
    #[verifier::when_used_as_spec(spec_negated)]
    pub fn negated(self) -> (n: Number)
        ensures
            n == self.spec_negated(),
    {
        Number { bits: self.bits ^ SIGN_BIT }
    }

    /// The number as a signed 32-bit integer: truncated toward zero, held to
    /// the integer's range, and 0 for what is not a number.
    pub open spec fn spec_to_i32(self) -> i32 {
        let e = exponent_of(self.bits);
        if self.is_nan() || e < EXPONENT_BIAS {
            0i32
        } else if e >= EXPONENT_BIAS + 31 {
            if self.is_negative() {
                i32::MIN
            } else {
                i32::MAX
            }
        } else if self.is_negative() {
            (-(integer_part(self.bits) as int)) as i32
        } else {
            integer_part(self.bits) as i32
        }
    }

    /// The number as a signed 32-bit integer: truncated toward zero, held to
    /// the integer's range, and 0 for what is not a number.
    #[verifier::when_used_as_spec(spec_to_i32)]
    pub fn to_i32(self) -> (r: i32)
        ensures
            r == self.spec_to_i32(),
    {
        let bits: u64 = self.bits;
        let e: u64 = (bits >> 52) & 0x7ff;
        let fraction: u64 = bits & 0xf_ffff_ffff_ffff;
        let negative = bits & SIGN_BIT != 0;
        if (e == 0x7ff && fraction != 0) || e < EXPONENT_BIAS {
            0
        } else if e >= EXPONENT_BIAS + 31 {
            if negative {
                i32::MIN
            } else {
                i32::MAX
            }
        } else {
            let shift: u64 = 1075 - e;
            let magnitude: u64 = (fraction | 0x10_0000_0000_0000) >> shift;
            assert(magnitude < 0x8000_0000) by (bit_vector)
                requires
                    magnitude == (fraction | 0x10_0000_0000_0000) >> shift,
                    fraction == bits & 0xf_ffff_ffff_ffff,
                    22 <= shift <= 52,
            ;
            if negative {
                let m: i64 = magnitude as i64;
                (-m) as i32
            } else {
                magnitude as i32
            }
        }
    }

    /// The number as an unsigned 32-bit integer: truncated toward zero, held
    /// to the integer's range, and 0 for what is not a number.
    pub open spec fn spec_to_u32(self) -> u32 {
        let e = exponent_of(self.bits);
        if self.is_nan() || e < EXPONENT_BIAS || self.is_negative() {
            0u32
        } else if e >= EXPONENT_BIAS + 32 {
            u32::MAX
        } else {
            integer_part(self.bits) as u32
        }
    }

    /// The number as an unsigned 32-bit integer: truncated toward zero, held
    /// to the integer's range, and 0 for what is not a number.
    #[verifier::when_used_as_spec(spec_to_u32)]
    pub fn to_u32(self) -> (r: u32)
        ensures
            r == self.spec_to_u32(),
    {
        let bits: u64 = self.bits;
        let e: u64 = (bits >> 52) & 0x7ff;
        let fraction: u64 = bits & 0xf_ffff_ffff_ffff;
        let negative = bits & SIGN_BIT != 0;
        if (e == 0x7ff && fraction != 0) || e < EXPONENT_BIAS || negative {
            0
        } else if e >= EXPONENT_BIAS + 32 {
            u32::MAX
        } else {
            let shift: u64 = 1075 - e;
            let magnitude: u64 = (fraction | 0x10_0000_0000_0000) >> shift;
            assert(magnitude < 0x1_0000_0000) by (bit_vector)
                requires
                    magnitude == (fraction | 0x10_0000_0000_0000) >> shift,
                    fraction == bits & 0xf_ffff_ffff_ffff,
                    21 <= shift <= 52,
            ;
            magnitude as u32
        }
    }
}

/// Negating twice gives the number back, and negating changes the sign and
/// nothing else.
pub proof fn lemma_negated_twice(n: Number)
    ensures
        n.negated().negated() == n,
        n.negated().is_negative() == !n.is_negative(),
        exponent_of(n.negated().bits) == exponent_of(n.bits),
        fraction_of(n.negated().bits) == fraction_of(n.bits),
{
    let b = n.bits;
    assert((b ^ 0x8000_0000_0000_0000) ^ 0x8000_0000_0000_0000 == b) by (bit_vector);
    assert(((b ^ 0x8000_0000_0000_0000) & 0x8000_0000_0000_0000 != 0) == !(b
        & 0x8000_0000_0000_0000 != 0)) by (bit_vector);
    assert(((b ^ 0x8000_0000_0000_0000) >> 52) & 0x7ff == (b >> 52) & 0x7ff) by (bit_vector);
    assert((b ^ 0x8000_0000_0000_0000) & 0xf_ffff_ffff_ffff == b & 0xf_ffff_ffff_ffff)
        by (bit_vector);
}

} // verus!
