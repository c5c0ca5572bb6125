//! Exact decimal numbers of any size, computed by `bigdecimal`.
//!
//! A [`Decimal`] holds what a `BigDecimal` holds, as plain data: the digits as
//! a signed integer in little-endian two's-complement bytes, and the scale.
//! The arithmetic itself is done by `bigdecimal`; what is proved here is what
//! the results stand for.

use bigdecimal::num_bigint::BigInt;
use bigdecimal::BigDecimal;
use vstd::prelude::*;
use crate::value::{
    lemma_at_least_by_difference, lemma_eqv_reflexive, lemma_eqv_sign, lemma_minus_zero,
    lemma_times_one, lemma_zero_minus, whole, DecimalValue,
};

verus! {

/// The integer that little-endian two's-complement bytes stand for. No bytes
/// stand for zero.
pub open spec fn signed_le(bytes: Seq<u8>) -> int
    decreases bytes.len(),
{
    if bytes.len() == 0 {
        0
    } else if bytes.len() == 1 {
        if bytes[0] < 128 {
            bytes[0] as int
        } else {
            bytes[0] - 256
        }
    } else {
        bytes[0] + 256 * signed_le(bytes.subrange(1, bytes.len() as int))
    }
}

/// The sign of the integer is the top bit of the last byte.
pub proof fn lemma_signed_le_sign(bytes: Seq<u8>)
    ensures
        signed_le(bytes) < 0 <==> bytes.len() > 0 && bytes.last() >= 128,
    decreases bytes.len(),
{
    if bytes.len() >= 2 {
        let rest = bytes.subrange(1, bytes.len() as int);
        lemma_signed_le_sign(rest);
        assert(rest.last() == bytes.last());
    }
}

/// The largest scale, to either side of zero, of a decimal that goes into the
/// profit calculation. Amounts, prices and factors stay far below it.
pub const SCALE_LIMIT: i64 = 100_000;

/// The largest difference of scales between the two operands of a subtraction
/// or a comparison. To subtract, the operand of the smaller scale is multiplied
/// by ten to the power of the difference; the limit keeps that power to a few
/// hundred thousand digits.
pub const SCALE_SPREAD: i64 = 400_000;

/// An exact decimal number: `digits × 10^(-scale)`.
#[derive(Clone, Debug)]
pub struct Decimal {
    /// The digits as one signed integer: little-endian two's-complement bytes.
    pub digits: Vec<u8>,
    /// The number of decimal places. A negative scale stands for trailing zeros.
    pub scale: i64,
}

impl View for Decimal {
    type V = DecimalValue;

    open spec fn view(&self) -> DecimalValue {
        DecimalValue { unscaled: signed_le(self.digits@), scale: self.scale as int }
    }
}

/// `BigDecimal * BigDecimal`, on the digits and scales of the two operands.
///
/// `bigdecimal` multiplies the digits and adds the scales, except that it hands
/// back the other operand untouched where it recognises one operand as the
/// number one (a positive `10^scale` at a scale of at most 38). It adds the
/// scales as `i64`, which must not overflow.
#[verifier::external_body]
fn bigdecimal_mul(a: &Decimal, b: &Decimal) -> (r: Decimal)
    requires
        i64::MIN <= a.scale + b.scale <= i64::MAX,
    ensures
        r@ == a@.times(b@) || (a@.is_one() && r@ == b@) || (b@.is_one() && r@ == a@),
{
    let lhs = BigDecimal::new(BigInt::from_signed_bytes_le(&a.digits), a.scale);
    let rhs = BigDecimal::new(BigInt::from_signed_bytes_le(&b.digits), b.scale);
    let (digits, scale) = (lhs * rhs).into_bigint_and_exponent();
    Decimal { digits: digits.to_signed_bytes_le(), scale }
}

/// `BigDecimal - BigDecimal`, on the digits and scales of the two operands.
///
/// `bigdecimal` brings both operands to the larger scale and subtracts the
/// digits, except that it hands back the left operand untouched where the right
/// one is zero, and the opposite of the right one where the left one is zero.
/// It multiplies the digits of the operand of the smaller scale by ten to the
/// power of the difference of the scales, so that difference is kept within
/// [`SCALE_SPREAD`].
#[verifier::external_body]
fn bigdecimal_sub(a: &Decimal, b: &Decimal) -> (r: Decimal)
    requires
        -SCALE_SPREAD <= a.scale - b.scale <= SCALE_SPREAD,
    ensures
        r@ == a@.minus(b@) || (b@.is_zero() && r@ == a@) || (a@.is_zero() && r@ == b@.negated()),
{
    let lhs = BigDecimal::new(BigInt::from_signed_bytes_le(&a.digits), a.scale);
    let rhs = BigDecimal::new(BigInt::from_signed_bytes_le(&b.digits), b.scale);
    let (digits, scale) = (lhs - rhs).into_bigint_and_exponent();
    Decimal { digits: digits.to_signed_bytes_le(), scale }
}

impl Decimal {
    /// The scale lies within [`SCALE_LIMIT`] of zero.
    pub open spec fn fits(&self) -> bool {
        self@.within(SCALE_LIMIT as int)
    }

    /// Whether the scale lies within [`SCALE_LIMIT`] of zero.
    pub fn check_fits(&self) -> (fits: bool)
        ensures
            fits == self.fits(),
    {
        -SCALE_LIMIT <= self.scale && self.scale <= SCALE_LIMIT
    }

    /// The number zero.
    pub fn zero() -> (r: Decimal)
        ensures
            r@ == whole(0),
    {
        let r = Decimal { digits: vec![0u8], scale: 0 };
        assert(r.digits@.len() == 1);
        r
    }

    /// The number one.
    pub fn one() -> (r: Decimal)
        ensures
            r@ == whole(1),
    {
        let r = Decimal { digits: vec![1u8], scale: 0 };
        assert(r.digits@.len() == 1);
        r
    }

    /// `hundredths / 100`.
    pub fn percent(hundredths: u8) -> (r: Decimal)
        ensures
            r@ == (DecimalValue { unscaled: hundredths as int, scale: 2 }),
    {
        let r = Decimal { digits: vec![hundredths, 0u8], scale: 2 };
        proof {
            reveal_with_fuel(signed_le, 2);
            assert(r.digits@.subrange(1, 2) =~= seq![0u8]);
        }
        r
    }

    /// Whether the number is below zero.
    pub fn is_negative(&self) -> (negative: bool)
        ensures
            negative == (self@.unscaled < 0),
    {
        proof {
            lemma_signed_le_sign(self.digits@);
        }
        let len = self.digits.len();
        len > 0 && self.digits[len - 1] >= 128
    }

    /// The product of two numbers.
    pub fn times(&self, rhs: &Decimal) -> (r: Decimal)
        requires
            i64::MIN <= self.scale + rhs.scale <= i64::MAX,
        ensures
            r@.eqv(self@.times(rhs@)),
            r.scale == self.scale + rhs.scale || r.scale == self.scale || r.scale == rhs.scale,
    {
        let r = bigdecimal_mul(self, rhs);
        proof {
            if r@ == self@.times(rhs@) {
                lemma_eqv_reflexive(r@);
            } else if self@.is_one() && r@ == rhs@ {
                lemma_times_one(rhs@, self@);
            } else {
                lemma_times_one(self@, rhs@);
            }
        }
        r
    }

    /// The difference of two numbers.
    pub fn minus(&self, rhs: &Decimal) -> (r: Decimal)
        requires
            -SCALE_SPREAD <= self.scale - rhs.scale <= SCALE_SPREAD,
        ensures
            r@.eqv(self@.minus(rhs@)),
            r.scale == self.scale || r.scale == rhs.scale,
    {
        let r = bigdecimal_sub(self, rhs);
        proof {
            if r@ == self@.minus(rhs@) {
                lemma_eqv_reflexive(r@);
            } else if rhs@.is_zero() && r@ == self@ {
                lemma_minus_zero(self@, rhs@);
            } else {
                lemma_zero_minus(self@, rhs@);
            }
        }
        r
    }

    /// Whether the number is at least `rhs`: numbers that are equal compare as
    /// at least each other, at whatever scales they are written.
    pub fn at_least(&self, rhs: &Decimal) -> (r: bool)
        requires
            -SCALE_SPREAD <= self.scale - rhs.scale <= SCALE_SPREAD,
        ensures
            r == self@.at_least(rhs@),
    {
        let difference = self.minus(rhs);
        proof {
            lemma_eqv_sign(difference@, self@.minus(rhs@));
            lemma_at_least_by_difference(self@, rhs@);
        }
        !difference.is_negative()
    }
}

} // verus!
