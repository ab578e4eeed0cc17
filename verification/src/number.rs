//! Numbers: IEEE-754 doubles, kept as their bit patterns.
//!
//! Bit 63 is the sign, bits 62 to 52 the biased exponent, bits 51 to 0 the
//! fraction. What can be read off the bits with integer arithmetic is
//! decided here: sign, zero, not-a-number, equality, order, negation and
//! rounding to a count. Sums, products and quotients are not.
use vstd::prelude::*;

verus! {

/// The sign bit of a double.
pub const SIGN_BIT: u64 = 0x8000_0000_0000_0000;

/// The bit pattern of positive infinity; every larger magnitude is not a
/// number.
pub const INFINITY_BITS: u64 = 0x7FF0_0000_0000_0000;

/// The implicit leading bit of a normal double's significand.
pub const HIDDEN_BIT: u64 = 0x0010_0000_0000_0000;

/// The bit pattern of `1.0`.
pub const ONE_BITS: u64 = 0x3FF0_0000_0000_0000;

/// A double-precision number, as its bit pattern.
#[derive(Clone, Copy, Debug)]
pub struct Number {
    pub bits: u64,
}

impl PartialEq for Number {
    /// Numeric equality: no not-a-number equals anything, and the two zeros
    /// are equal.
    fn eq(&self, other: &Number) -> (r: bool) {
        self.same(*other)
    }
}

impl vstd::std_specs::cmp::PartialEqSpecImpl for Number {
    open spec fn obeys_eq_spec() -> bool {
        true
    }

    open spec fn eq_spec(&self, other: &Number) -> bool {
        self.equals(*other)
    }
}

impl Number {
    /// The bits without the sign.
    pub open spec fn magnitude(self) -> nat {
        if self.bits >= SIGN_BIT {
            (self.bits - SIGN_BIT) as nat
        } else {
            self.bits as nat
        }
    }

    /// Whether the sign bit is set.
    pub open spec fn negative(self) -> bool {
        self.bits >= SIGN_BIT
    }

    /// Whether the pattern is not a number.
    pub open spec fn nan(self) -> bool {
        self.magnitude() > INFINITY_BITS
    }

    /// Whether the number is one of the two zeros.
    pub open spec fn zero(self) -> bool {
        self.magnitude() == 0
    }

    /// An integer that orders the numbers as their values do: the magnitude,
    /// counted below zero for a negative number. Both zeros have rank 0.
    pub open spec fn rank(self) -> int {
        if self.negative() {
            -(self.magnitude() as int)
        } else {
            self.magnitude() as int
        }
    }

    /// Numeric equality.
    pub open spec fn equals(self, other: Number) -> bool {
        !self.nan() && !other.nan() && self.rank() == other.rank()
    }

    /// Numeric order: strictly less.
    pub open spec fn below(self, other: Number) -> bool {
        !self.nan() && !other.nan() && self.rank() < other.rank()
    }

    /// Numeric order: less or equal.
    pub open spec fn at_most(self, other: Number) -> bool {
        !self.nan() && !other.nan() && self.rank() <= other.rank()
    }

    /// The number with the opposite sign.
    pub open spec fn negated(self) -> Number {
        if self.bits >= SIGN_BIT {
            Number { bits: (self.bits - SIGN_BIT) as u64 }
        } else {
            Number { bits: (self.bits + SIGN_BIT) as u64 }
        }
    }

    /// The biased exponent.
    pub open spec fn exponent(self) -> nat {
        self.magnitude() / (HIDDEN_BIT as nat)
    }

    /// The significand of a normal number: the fraction under the hidden bit.
    pub open spec fn significand(self) -> nat {
        self.magnitude() % (HIDDEN_BIT as nat) + HIDDEN_BIT as nat
    }

    /// The number rounded to the nearest count, halves away from zero:
    /// 0 for a negative number and for not-a-number, `u64::MAX` where the
    /// value is larger than that.
    ///
    /// A normal number with biased exponent `e` has the value
    /// `significand * 2^(e - 1075)`.
    pub open spec fn count(self) -> nat {
        let e = self.exponent();
        let m = self.significand();
        if self.negative() || self.nan() || e < 1022 {
            0
        } else if e < 1075 {
            let half = vstd::arithmetic::power2::pow2((1074 - e) as nat);
            (m + half) / (2 * half)
        } else if e <= 1086 {
            m * vstd::arithmetic::power2::pow2((e - 1075) as nat)
        } else {
            u64::MAX as nat
        }
    }

    /// The number with the given bit pattern.
    pub fn from_bits(bits: u64) -> (r: Number)
        ensures
            r.bits == bits,
    {
        Number { bits }
    }

    /// The bit pattern of the number.
    pub fn to_bits(&self) -> (r: u64)
        ensures
            r == self.bits,
    {
        self.bits
    }

    /// The number `1.0`.
    pub fn one() -> (r: Number)
        ensures
            r.bits == ONE_BITS,
    {
        Number { bits: ONE_BITS }
    }

    fn abs_bits(&self) -> (r: u64)
        ensures
            r == self.magnitude(),
            r < SIGN_BIT,
    {
        if self.bits >= SIGN_BIT {
            self.bits - SIGN_BIT
        } else {
            self.bits
        }
    }

    /// Whether the pattern is not a number.
    pub fn is_nan(&self) -> (r: bool)
        ensures
            r == self.nan(),
    {
        self.abs_bits() > INFINITY_BITS
    }

    /// Whether the number is zero, of either sign.
    pub fn is_zero(&self) -> (r: bool)
        ensures
            r == self.zero(),
    {
        self.abs_bits() == 0
    }

    fn order_key(&self) -> (r: i128)
        ensures
            r == self.rank(),
    {
        let m: u64 = self.abs_bits();
        if self.bits >= SIGN_BIT {
            -(m as i128)
        } else {
            m as i128
        }
    }

    /// Numeric equality.
    pub fn same(&self, other: Number) -> (r: bool)
        ensures
            r == self.equals(other),
    {
        !self.is_nan() && !other.is_nan() && self.order_key() == other.order_key()
    }

    /// Whether the number is strictly less than the other.
    pub fn less(&self, other: Number) -> (r: bool)
        ensures
            r == self.below(other),
    {
        !self.is_nan() && !other.is_nan() && self.order_key() < other.order_key()
    }

    /// Whether the number is less than or equal to the other.
    pub fn less_or_same(&self, other: Number) -> (r: bool)
        ensures
            r == self.at_most(other),
    {
        !self.is_nan() && !other.is_nan() && self.order_key() <= other.order_key()
    }

    /// The number with the opposite sign.
    pub fn negate(&self) -> (r: Number)
        ensures
            r == self.negated(),
    {
        if self.bits >= SIGN_BIT {
            Number { bits: self.bits - SIGN_BIT }
        } else {
            Number { bits: self.bits + SIGN_BIT }
        }
    }

    /// The number rounded to the nearest count, halves away from zero.
    pub fn round_count(&self) -> (r: u64)
        ensures
            r == self.count(),
    {
        let mag: u64 = self.abs_bits();
        let e: u64 = mag / HIDDEN_BIT;
        let m: u64 = mag % HIDDEN_BIT + HIDDEN_BIT;
        if self.bits >= SIGN_BIT || mag > INFINITY_BITS || e < 1022 {
            0
        } else if e < 1075 {
            let s: u64 = 1074 - e;
            proof {
                vstd::arithmetic::power2::lemma_pow2_strictly_increases(s as nat, 53);
                vstd::arithmetic::power2::lemma2_to64();
                vstd::arithmetic::power2::lemma2_to64_rest();
                vstd::bits::lemma_u64_shl_is_mul(1, s);
            }
            let half: u64 = 1u64 << s;
            (m + half) / (2 * half)
        } else if e <= 1086 {
            let s: u64 = e - 1075;
            proof {
                vstd::arithmetic::power2::lemma2_to64();
                if s < 11 {
                    vstd::arithmetic::power2::lemma_pow2_strictly_increases(s as nat, 11);
                }
                vstd::bits::lemma_u64_shl_is_mul(1, s);
                assert(m * vstd::arithmetic::power2::pow2(s as nat) <= 0x1F_FFFF_FFFF_FFFF * 2048)
                    by (nonlinear_arith)
                    requires
                        m <= 0x1F_FFFF_FFFF_FFFF,
                        vstd::arithmetic::power2::pow2(s as nat) <= 2048,
                ;
            }
            let scale: u64 = 1u64 << s;
            m * scale
        } else {
            u64::MAX
        }
    }
}

} // verus!
