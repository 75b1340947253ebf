//! Real-valued quantities in the IEEE 754 binary64 encoding.
//!
//! A [`Scalar`] is the 64-bit pattern of a binary64 number: one sign bit, eleven
//! exponent bits, fifty-two fraction bits. The engine never adds or multiplies
//! scalars; it stores them, classifies them, compares them and rounds them to
//! whole numbers, and all of these are exact functions of the pattern.
//! Arithmetic belongs to the host, which turns a pattern into its machine float
//! and back without loss.
//!
//! Ordering is stated through [`Scalar::key`], an integer that grows with the
//! number a pattern encodes: the magnitude bits for a pattern without the sign
//! bit, their negation for one with it. Both zeros get key 0. A NaN has a key
//! too, but compares as neither less than, equal to, nor greater than anything.

use vstd::arithmetic::power2::{
    lemma2_to64, lemma2_to64_rest, lemma_pow2_pos, lemma_pow2_strictly_increases,
    lemma_pow2_unfold, pow2,
};
use vstd::bits::{lemma_u64_pow2_no_overflow, lemma_u64_shl_is_mul, lemma_u64_shr_is_div};
use vstd::prelude::*;

verus! {

/// The pattern that holds the sign bit alone (negative zero).
pub const SIGN_BIT: u64 = 0x8000_0000_0000_0000;

/// The pattern of positive infinity. A larger magnitude encodes a NaN, a smaller
/// one a finite number.
pub const INFINITY_BITS: u64 = 0x7FF0_0000_0000_0000;

/// The pattern of 1.0.
pub const ONE_BITS: u64 = 0x3FF0_0000_0000_0000;

/// The pattern of 4294967295.0, the largest number of 32 bits.
pub const U32_MAX_BITS: u64 = 0x41EF_FFFF_FFE0_0000;

/// Two to the power of 52: one more than the largest fraction field.
pub const FRACTION_SPAN: u64 = 0x10_0000_0000_0000;

/// A binary64 number, held by its bit pattern.
#[derive(Clone, Copy, Debug)]
pub struct Scalar {
    /// The IEEE 754 binary64 encoding of the number.
    pub bits: u64,
}

impl Scalar {
    /// The pattern without its sign bit.
    pub open spec fn magnitude(self) -> u64 {
        if self.bits >= SIGN_BIT {
            (self.bits - SIGN_BIT) as u64
        } else {
            self.bits
        }
    }

    /// The sign bit is set. This holds of negative zero and of some NaNs too.
    pub open spec fn sign_set(self) -> bool {
        self.bits >= SIGN_BIT
    }

    /// The pattern encodes no number.
    pub open spec fn nan(self) -> bool {
        self.magnitude() > INFINITY_BITS
    }

    /// The pattern encodes a number other than the two infinities.
    pub open spec fn finite(self) -> bool {
        self.magnitude() < INFINITY_BITS
    }

    /// An integer that orders the patterns as the numbers they encode are ordered.
    pub open spec fn key(self) -> int {
        if self.sign_set() {
            -(self.magnitude() as int)
        } else {
            self.magnitude() as int
        }
    }

    /// Numeric equality: neither side is a NaN and both encode the same number.
    /// The two zeros are equal; a NaN is not equal to itself.
    pub open spec fn equal(self, other: Scalar) -> bool {
        !self.nan() && !other.nan() && self.key() == other.key()
    }

    /// Numeric `<`: false as soon as either side is a NaN.
    pub open spec fn less(self, other: Scalar) -> bool {
        !self.nan() && !other.nan() && self.key() < other.key()
    }

    /// Numeric `<=`: false as soon as either side is a NaN.
    pub open spec fn at_most(self, other: Scalar) -> bool {
        !self.nan() && !other.nan() && self.key() <= other.key()
    }

    /// Numeric `> 0`.
    pub open spec fn positive(self) -> bool {
        !self.nan() && self.key() > 0
    }

    /// The absolute value: the same pattern with the sign bit cleared.
    pub open spec fn absolute(self) -> Scalar {
        Scalar { bits: self.magnitude() }
    }

    /// The exponent field: the eleven bits below the sign bit.
    pub open spec fn exponent(self) -> int {
        self.magnitude() as int / FRACTION_SPAN as int
    }

    /// The power of two that a finite number's significand is scaled by,
    /// plus 1075: the exponent field, or 1 where that is 0 (a subnormal
    /// number or a zero).
    pub open spec fn scale(self) -> int {
        if self.exponent() == 0 {
            1
        } else {
            self.exponent()
        }
    }

    /// The significand of a finite number: the fraction field, with the
    /// implied leading bit before it unless the exponent field is 0. The
    /// number has the magnitude `significand * 2^(scale - 1075)`.
    pub open spec fn significand(self) -> int {
        if self.exponent() == 0 {
            self.magnitude() as int % FRACTION_SPAN as int
        } else {
            FRACTION_SPAN as int + self.magnitude() as int % FRACTION_SPAN as int
        }
    }

    /// The number is neither below zero nor at or above 4294967295. A NaN
    /// passes, as it fails every comparison.
    pub open spec fn on_grid(self) -> bool {
        !self.less(Scalar { bits: 0 }) && !(Scalar { bits: U32_MAX_BITS }).at_most(self)
    }

    /// The whole number nearest to the magnitude of a number below two to
    /// the power of 52, a half counting upwards; 0 for a NaN.
    ///
    /// The magnitude is `significand / 2^shift` with `shift` equal to
    /// 1075 less the scale, and the nearest whole number is that plus one
    /// half, rounded down.
    pub open spec fn nearest(self) -> int
        recommends
            self.nan() || self.scale() < 1075,
    {
        if self.nan() {
            0
        } else {
            (self.significand() + pow2((1074 - self.scale()) as nat)) / pow2(
                (1075 - self.scale()) as nat,
            ) as int
        }
    }

    /// Wraps a bit pattern.
    pub fn from_bits(bits: u64) -> (r: Scalar)
        ensures
            r.bits == bits,
    {
        Scalar { bits }
    }

    /// The bit pattern.
    pub fn to_bits(&self) -> (r: u64)
        ensures
            r == self.bits,
    {
        self.bits
    }

    /// Positive zero.
    pub fn zero() -> (r: Scalar)
        ensures
            r.bits == 0,
    {
        Scalar { bits: 0 }
    }

    /// The number 1.
    pub fn one() -> (r: Scalar)
        ensures
            r.bits == ONE_BITS,
    {
        Scalar { bits: ONE_BITS }
    }

    /// Clears the sign bit.
    pub fn abs(&self) -> (r: Scalar)
        ensures
            r == self.absolute(),
    {
        if self.bits >= SIGN_BIT {
            Scalar { bits: self.bits - SIGN_BIT }
        } else {
            Scalar { bits: self.bits }
        }
    }

    /// Whether the pattern encodes no number.
    pub fn is_nan(&self) -> (r: bool)
        ensures
            r == self.nan(),
    {
        self.abs().bits > INFINITY_BITS
    }

    /// Whether the pattern encodes a number other than the two infinities.
    pub fn is_finite(&self) -> (r: bool)
        ensures
            r == self.finite(),
    {
        self.abs().bits < INFINITY_BITS
    }

    /// Whether the number is greater than zero.
    pub fn is_positive(&self) -> (r: bool)
        ensures
            r == self.positive(),
    {
        0 < self.bits && self.bits <= INFINITY_BITS
    }

    /// Numeric equality.
    pub fn eq(&self, other: &Scalar) -> (r: bool)
        ensures
            r == self.equal(*other),
    {
        if self.is_nan() || other.is_nan() {
            false
        } else {
            let a = self.abs().bits;
            let b = other.abs().bits;
            if a == 0 {
                b == 0
            } else {
                self.bits == other.bits
            }
        }
    }

    /// Numeric `<`.
    pub fn lt(&self, other: &Scalar) -> (r: bool)
        ensures
            r == self.less(*other),
    {
        if self.is_nan() || other.is_nan() {
            false
        } else {
            let a = self.abs().bits;
            let b = other.abs().bits;
            if self.bits >= SIGN_BIT {
                if other.bits >= SIGN_BIT {
                    b < a
                } else {
                    a > 0 || b > 0
                }
            } else {
                other.bits < SIGN_BIT && a < b
            }
        }
    }

    /// The whole number nearest to this one, a half counting upwards, if this
    /// number is neither below zero nor at or above 4294967295. A NaN gives 0.
    pub fn to_grid(&self) -> (place: Option<u32>)
        ensures
            place == if self.on_grid() {
                Some(self.nearest() as u32)
            } else {
                None
            },
            self.on_grid() ==> 0 <= self.nearest() <= u32::MAX,
    {
        if self.lt(&Scalar::zero()) || Scalar::from_bits(U32_MAX_BITS).le(self) {
            return None;
        }
        if self.is_nan() {
            return Some(0);
        }
        let magnitude = self.abs().bits;
        let exponent = magnitude / FRACTION_SPAN;
        if exponent < 1022 {
            proof {
                lemma_below_one_half_is_nearest_to_zero(*self);
            }
            return Some(0);
        }
        let shift: u64 = 1075 - exponent;
        let significand: u64 = FRACTION_SPAN + magnitude % FRACTION_SPAN;
        proof {
            lemma2_to64();
            lemma2_to64_rest();
            lemma_u64_pow2_no_overflow((shift - 1) as nat);
            lemma_u64_shl_is_mul(1, (shift - 1) as u64);
            lemma_pow2_unfold(shift as nat);
            if shift > 21 {
                lemma_pow2_strictly_increases(20, (shift - 1) as nat);
            }
            lemma_pow2_strictly_increases((shift - 1) as nat, 53);
        }
        let half: u64 = 1u64 << (shift - 1);
        let sum: u64 = significand + half;
        let nearest: u64 = sum >> shift;
        proof {
            lemma_u64_shr_is_div(sum, shift);
            let h = half as int;
            let q = nearest as int;
            assert(q == sum as int / (2 * h));
            assert(q <= u32::MAX) by (nonlinear_arith)
                requires
                    q == sum as int / (2 * h),
                    h >= 0x10_0000,
                    0 <= sum,
                    h == 0x10_0000 ==> sum < 0x20_0000_0000_0000 - 0x10_0000,
                    h > 0x10_0000 ==> sum < 0x20_0000_0000_0000 + h,
            ;
        }
        Some(nearest as u32)
    }

    /// Numeric `<=`.
    pub fn le(&self, other: &Scalar) -> (r: bool)
        ensures
            r == self.at_most(*other),
    {
        if self.is_nan() || other.is_nan() {
            false
        } else {
            let a = self.abs().bits;
            let b = other.abs().bits;
            if self.bits >= SIGN_BIT {
                other.bits < SIGN_BIT || b <= a
            } else if other.bits >= SIGN_BIT {
                a == 0 && b == 0
            } else {
                a <= b
            }
        }
    }
}

/// Among numbers, exactly one of `<`, `==` and `>` holds; `<=` is `<` or `==`.
pub proof fn lemma_order_is_total(a: Scalar, b: Scalar)
    requires
        !a.nan(),
        !b.nan(),
    ensures
        a.less(b) || a.equal(b) || b.less(a),
        !(a.less(b) && a.equal(b)),
        !(a.less(b) && b.less(a)),
        !(a.equal(b) && b.less(a)),
        a.at_most(b) <==> a.less(b) || a.equal(b),
{
}

/// A NaN compares false with everything, itself included.
pub proof fn lemma_nan_is_unordered(a: Scalar, b: Scalar)
    requires
        a.nan() || b.nan(),
    ensures
        !a.less(b),
        !a.at_most(b),
        !a.equal(b),
        !b.less(a),
        !b.at_most(a),
{
}

/// A number whose exponent field is below 1022 has a magnitude below one
/// half, and the whole number nearest to it is 0.
pub proof fn lemma_below_one_half_is_nearest_to_zero(a: Scalar)
    requires
        a.exponent() < 1022,
    ensures
        a.nearest() == 0,
{
    let shift = (1075 - a.scale()) as nat;
    let half = pow2((shift - 1) as nat) as int;
    lemma2_to64_rest();
    lemma_pow2_unfold(shift);
    if shift > 54 {
        lemma_pow2_strictly_increases(53, (shift - 1) as nat);
    }
    assert((a.significand() + half) / (2 * half) == 0) by (nonlinear_arith)
        requires
            0 <= a.significand() < half,
    ;
}

/// `nearest` is the nearest whole number, a half counting upwards: the
/// magnitude `significand / 2^shift` is at least `nearest - 1/2` and less
/// than `nearest + 1/2`. Stated in halves of `2^shift`, with `half` for
/// `2^(shift - 1)`: `(2 * nearest - 1) * half <= significand < (2 * nearest + 1) * half`.
pub proof fn lemma_nearest_is_nearest(a: Scalar)
    requires
        !a.nan(),
        a.scale() < 1075,
    ensures
        ({
            let half = pow2((1074 - a.scale()) as nat) as int;
            &&& half > 0
            &&& (2 * a.nearest() - 1) * half <= a.significand()
            &&& a.significand() < (2 * a.nearest() + 1) * half
            &&& a.nearest() >= 0
        }),
{
    let shift = (1075 - a.scale()) as nat;
    let half = pow2((shift - 1) as nat) as int;
    lemma_pow2_pos((shift - 1) as nat);
    lemma_pow2_unfold(shift);
    let m = a.significand();
    let q = (m + half) / (2 * half);
    assert(a.nearest() == q);
    assert((2 * q - 1) * half <= m && m < (2 * q + 1) * half && q >= 0) by (nonlinear_arith)
        requires
            q == (m + half) / (2 * half),
            half > 0,
            m >= 0,
    ;
}

/// An absolute value is never below zero, and is a NaN or infinite exactly
/// when the number it was taken of is.
pub proof fn lemma_absolute_value(a: Scalar)
    ensures
        a.absolute().key() >= 0,
        a.absolute().key() == if a.key() < 0 { -a.key() } else { a.key() },
        a.absolute().nan() == a.nan(),
        a.absolute().finite() == a.finite(),
{
}

} // verus!
