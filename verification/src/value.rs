//! The numbers that decimals stand for, and their arithmetic.
//!
//! A decimal is a pair of an integer and a scale and stands for
//! `unscaled × 10^(-scale)`. Many pairs stand for one number (`1.0` and `1.00`),
//! so everything here is stated up to [`DecimalValue::eqv`], which compares two
//! pairs after bringing them to a common scale.

use vstd::prelude::*;
use vstd::arithmetic::power::*;
use vstd::arithmetic::mul::*;

verus! {

/// Ten to the power `e`.
pub open spec fn pow10(e: nat) -> int {
    pow(10, e)
}

/// The larger of two integers.
pub open spec fn larger(x: int, y: int) -> int {
    if x >= y {
        x
    } else {
        y
    }
}

/// An integer together with the number of decimal places it is shifted by.
pub struct DecimalValue {
    pub unscaled: int,
    pub scale: int,
}

impl DecimalValue {
    /// The number counted in units of `10^(-at)`. Exact for `at >= self.scale`.
    pub open spec fn units(self, at: int) -> int
        recommends
            at >= self.scale,
    {
        self.unscaled * pow10((at - self.scale) as nat)
    }

    /// The larger of the two scales: the smallest scale at which both numbers
    /// are whole counts of units.
    pub open spec fn common_scale(self, other: DecimalValue) -> int {
        larger(self.scale, other.scale)
    }

    /// Both pairs stand for the same number.
    pub open spec fn eqv(self, other: DecimalValue) -> bool {
        self.units(self.common_scale(other)) == other.units(self.common_scale(other))
    }

    /// The number is at least `other`.
    pub open spec fn at_least(self, other: DecimalValue) -> bool {
        self.units(self.common_scale(other)) >= other.units(self.common_scale(other))
    }

    /// The product, at the sum of the scales.
    pub open spec fn times(self, other: DecimalValue) -> DecimalValue {
        DecimalValue { unscaled: self.unscaled * other.unscaled, scale: self.scale + other.scale }
    }

    /// The difference, at the larger of the scales.
    pub open spec fn minus(self, other: DecimalValue) -> DecimalValue {
        DecimalValue {
            unscaled: self.units(self.common_scale(other)) - other.units(self.common_scale(other)),
            scale: self.common_scale(other),
        }
    }

    /// The opposite number, at the same scale.
    pub open spec fn negated(self) -> DecimalValue {
        DecimalValue { unscaled: -self.unscaled, scale: self.scale }
    }

    pub open spec fn is_zero(self) -> bool {
        self.unscaled == 0
    }

    /// The pair is `10^scale` over `10^scale`: the number one, written with
    /// `scale` decimal places.
    pub open spec fn is_one(self) -> bool {
        self.scale >= 0 && self.unscaled == pow10(self.scale as nat)
    }

    /// The scale lies within `limit` of zero.
    pub open spec fn within(self, limit: int) -> bool {
        -limit <= self.scale <= limit
    }
}

/// The integer `n`, at scale zero.
pub open spec fn whole(n: int) -> DecimalValue {
    DecimalValue { unscaled: n, scale: 0 }
}

pub proof fn lemma_pow10_positive(e: nat)
    ensures
        pow10(e) > 0,
{
    lemma_pow_positive(10, e);
}

pub proof fn lemma_pow10_small()
    ensures
        pow10(0) == 1,
        pow10(1) == 10,
        pow10(2) == 100,
{
    reveal_with_fuel(pow, 3);
}

/// Counting in finer units multiplies the count by the matching power of ten.
pub proof fn lemma_units_finer(v: DecimalValue, at: int, finer: int)
    requires
        v.scale <= at <= finer,
    ensures
        v.units(finer) == v.units(at) * pow10((finer - at) as nat),
{
    let low = (at - v.scale) as nat;
    let high = (finer - at) as nat;
    assert(low + high == (finer - v.scale) as nat);
    lemma_pow_adds(10, low, high);
    lemma_mul_is_associative(v.unscaled, pow10(low), pow10(high));
}

/// Two numbers are the same exactly if their counts agree at any scale that is
/// fine enough for both.
pub proof fn lemma_eqv_at(a: DecimalValue, b: DecimalValue, at: int)
    requires
        a.scale <= at,
        b.scale <= at,
    ensures
        a.eqv(b) <==> a.units(at) == b.units(at),
{
    let m = a.common_scale(b);
    let p = pow10((at - m) as nat);
    lemma_units_finer(a, m, at);
    lemma_units_finer(b, m, at);
    lemma_pow10_positive((at - m) as nat);
    let x = a.units(m);
    let y = b.units(m);
    assert(x * p == y * p <==> x == y) by (nonlinear_arith)
        requires
            p > 0,
    ;
}

/// The order of two numbers can be read off at any scale that is fine enough
/// for both.
pub proof fn lemma_at_least_at(a: DecimalValue, b: DecimalValue, at: int)
    requires
        a.scale <= at,
        b.scale <= at,
    ensures
        a.at_least(b) <==> a.units(at) >= b.units(at),
{
    let m = a.common_scale(b);
    let p = pow10((at - m) as nat);
    lemma_units_finer(a, m, at);
    lemma_units_finer(b, m, at);
    lemma_pow10_positive((at - m) as nat);
    let x = a.units(m);
    let y = b.units(m);
    assert(x * p >= y * p <==> x >= y) by (nonlinear_arith)
        requires
            p > 0,
    ;
}

/// The count of a product is the product of the counts.
pub proof fn lemma_times_units(a: DecimalValue, b: DecimalValue, at_a: int, at_b: int)
    requires
        a.scale <= at_a,
        b.scale <= at_b,
    ensures
        a.times(b).units(at_a + at_b) == a.units(at_a) * b.units(at_b),
{
    let ea = (at_a - a.scale) as nat;
    let eb = (at_b - b.scale) as nat;
    assert(ea + eb == (at_a + at_b - (a.scale + b.scale)) as nat);
    lemma_pow_adds(10, ea, eb);
    let pa = pow10(ea);
    let pb = pow10(eb);
    let x = a.unscaled;
    let y = b.unscaled;
    assert((x * y) * (pa * pb) == (x * pa) * (y * pb)) by (nonlinear_arith);
}

/// The count of a difference is the difference of the counts.
pub proof fn lemma_minus_units(a: DecimalValue, b: DecimalValue, at: int)
    requires
        a.scale <= at,
        b.scale <= at,
    ensures
        a.minus(b).units(at) == a.units(at) - b.units(at),
{
    let m = a.common_scale(b);
    let p = pow10((at - m) as nat);
    lemma_units_finer(a, m, at);
    lemma_units_finer(b, m, at);
    let x = a.units(m);
    let y = b.units(m);
    assert((x - y) * p == x * p - y * p) by (nonlinear_arith);
}

pub proof fn lemma_eqv_reflexive(a: DecimalValue)
    ensures
        a.eqv(a),
{
}

pub proof fn lemma_eqv_transitive(a: DecimalValue, b: DecimalValue, c: DecimalValue)
    requires
        a.eqv(b),
        b.eqv(c),
    ensures
        a.eqv(c),
{
    let m = larger(a.common_scale(b), c.scale);
    lemma_eqv_at(a, b, m);
    lemma_eqv_at(b, c, m);
    lemma_eqv_at(a, c, m);
}

/// A number keeps its sign whichever pair stands for it.
pub proof fn lemma_eqv_sign(a: DecimalValue, b: DecimalValue)
    requires
        a.eqv(b),
    ensures
        a.unscaled < 0 <==> b.unscaled < 0,
        a.unscaled == 0 <==> b.unscaled == 0,
{
    let m = a.common_scale(b);
    let pa = pow10((m - a.scale) as nat);
    let pb = pow10((m - b.scale) as nat);
    lemma_pow10_positive((m - a.scale) as nat);
    lemma_pow10_positive((m - b.scale) as nat);
    let x = a.unscaled;
    let y = b.unscaled;
    assert((x < 0 <==> y < 0) && (x == 0 <==> y == 0)) by (nonlinear_arith)
        requires
            x * pa == y * pb,
            pa > 0,
            pb > 0,
    ;
}

/// The product does not depend on which pairs stand for the factors.
pub proof fn lemma_times_eqv(a: DecimalValue, a2: DecimalValue, b: DecimalValue, b2: DecimalValue)
    requires
        a.eqv(a2),
        b.eqv(b2),
    ensures
        a.times(b).eqv(a2.times(b2)),
{
    let ma = a.common_scale(a2);
    let mb = b.common_scale(b2);
    lemma_times_units(a, b, ma, mb);
    lemma_times_units(a2, b2, ma, mb);
    lemma_eqv_at(a.times(b), a2.times(b2), ma + mb);
}

/// The difference does not depend on which pairs stand for the operands.
pub proof fn lemma_minus_eqv(a: DecimalValue, a2: DecimalValue, b: DecimalValue, b2: DecimalValue)
    requires
        a.eqv(a2),
        b.eqv(b2),
    ensures
        a.minus(b).eqv(a2.minus(b2)),
{
    let m = larger(a.common_scale(a2), b.common_scale(b2));
    lemma_eqv_at(a, a2, m);
    lemma_eqv_at(b, b2, m);
    lemma_minus_units(a, b, m);
    lemma_minus_units(a2, b2, m);
    lemma_eqv_at(a.minus(b), a2.minus(b2), m);
}

/// The order does not depend on which pairs stand for the operands.
pub proof fn lemma_at_least_eqv(
    a: DecimalValue,
    a2: DecimalValue,
    b: DecimalValue,
    b2: DecimalValue,
)
    requires
        a.eqv(a2),
        b.eqv(b2),
    ensures
        a.at_least(b) <==> a2.at_least(b2),
{
    let m = larger(a.common_scale(a2), b.common_scale(b2));
    lemma_eqv_at(a, a2, m);
    lemma_eqv_at(b, b2, m);
    lemma_at_least_at(a, b, m);
    lemma_at_least_at(a2, b2, m);
}

/// A number is at least another exactly if their difference is not negative.
pub proof fn lemma_at_least_by_difference(a: DecimalValue, b: DecimalValue)
    ensures
        a.at_least(b) <==> a.minus(b).unscaled >= 0,
{
}

/// Multiplying by one, however it is written, changes nothing.
pub proof fn lemma_times_one(a: DecimalValue, one: DecimalValue)
    requires
        one.is_one(),
    ensures
        a.eqv(a.times(one)),
        a.eqv(one.times(a)),
{
    let at = a.scale + one.scale;
    lemma_pow10_small();
    assert(a.times(one).units(at) == a.times(one).unscaled);
    assert(one.times(a).units(at) == one.times(a).unscaled);
    lemma_mul_is_commutative(a.unscaled, one.unscaled);
    lemma_eqv_at(a, a.times(one), at);
    lemma_eqv_at(a, one.times(a), at);
}

/// Taking zero away, at whatever scale it is written, changes nothing.
pub proof fn lemma_minus_zero(a: DecimalValue, zero: DecimalValue)
    requires
        zero.is_zero(),
    ensures
        a.eqv(a.minus(zero)),
{
    let m = a.common_scale(zero);
    lemma_minus_units(a, zero, m);
    lemma_eqv_at(a, a.minus(zero), m);
}

/// Taking a number away from zero gives its opposite.
pub proof fn lemma_zero_minus(zero: DecimalValue, b: DecimalValue)
    requires
        zero.is_zero(),
    ensures
        b.negated().eqv(zero.minus(b)),
{
    let m = zero.common_scale(b);
    lemma_minus_units(zero, b, m);
    let p = pow10((m - b.scale) as nat);
    let y = b.unscaled;
    assert((-y) * p == 0 - y * p) by (nonlinear_arith);
    lemma_eqv_at(b.negated(), zero.minus(b), m);
}

} // verus!
