//! IEEE 754 binary64 data, held by their bit patterns.
//!
//! The caller's probabilities, rates and frequencies are binary64 numbers.
//! This module gives each bit pattern its mathematical meaning and decides
//! the order of two of them from the bits alone.

use vstd::prelude::*;
use vstd::arithmetic::mul::{lemma_mul_inequality, lemma_mul_strict_inequality};
use vstd::arithmetic::power2::{
    lemma2_to64, lemma2_to64_rest, lemma_pow2_adds, lemma_pow2_pos, lemma_pow2_strictly_increases,
    lemma_pow2_unfold, pow2,
};

verus! {

/// The bit that holds the sign.
pub const SIGN_BIT: u64 = 0x8000_0000_0000_0000;

/// The weight of the exponent field's lowest bit, which is also the
/// significand's implicit leading bit.
pub const HIDDEN_BIT: u64 = 0x0010_0000_0000_0000;

/// The magnitude bits of an infinity; every larger magnitude is a NaN.
pub const INFINITY_BITS: u64 = 0x7FF0_0000_0000_0000;

/// The bits of the number one.
pub const ONE_BITS: u64 = 0x3FF0_0000_0000_0000;

/// A binary64 datum: a finite number, an infinity or a NaN.
///
/// `==` compares data, that is bit patterns: the two zeros differ and a NaN
/// equals itself. The order of the numbers is [`Double::le`].
#[derive(Clone, Copy, Debug, PartialEq, Eq, Structural)]
pub struct Double {
    pub bits: u64,
}

impl Double {
    /// The sign bit is set.
    pub open spec fn negative(self) -> bool {
        self.bits >= SIGN_BIT
    }

    /// The bits without the sign.
    pub open spec fn magnitude(self) -> nat {
        if self.bits >= SIGN_BIT {
            (self.bits - SIGN_BIT) as nat
        } else {
            self.bits as nat
        }
    }

    /// The biased exponent field.
    pub open spec fn exponent(self) -> nat {
        self.magnitude() / (HIDDEN_BIT as nat)
    }

    /// The fraction field.
    pub open spec fn fraction(self) -> nat {
        self.magnitude() % (HIDDEN_BIT as nat)
    }

    pub open spec fn nan(self) -> bool {
        self.magnitude() > INFINITY_BITS
    }

    pub open spec fn finite(self) -> bool {
        self.magnitude() < INFINITY_BITS
    }

    /// The significand as an integer: the fraction, with the implicit
    /// leading bit unless the datum is subnormal or zero.
    pub open spec fn significand(self) -> nat {
        if self.exponent() == 0 {
            self.fraction()
        } else {
            HIDDEN_BIT as nat + self.fraction()
        }
    }

    /// The power of two by which the significand is scaled, counted from
    /// the smallest subnormal's.
    pub open spec fn scale(self) -> nat {
        if self.exponent() == 0 {
            0
        } else {
            (self.exponent() - 1) as nat
        }
    }

    /// The absolute value in units of 2^-1074, the smallest positive
    /// binary64 number. An infinity counts 2^2098 units, more than any
    /// finite datum.
    pub open spec fn ulps(self) -> nat {
        self.significand() * pow2(self.scale())
    }

    /// The signed count of units: it orders all data but NaN as IEEE 754
    /// orders them, with both zeros at 0.
    pub open spec fn ordinal(self) -> int {
        if self.negative() {
            -(self.ulps() as int)
        } else {
            self.ulps() as int
        }
    }

    /// The number that a finite datum denotes.
    pub open spec fn value(self) -> real
        recommends
            self.finite(),
    {
        self.ordinal() as real / pow2(1074) as real
    }

    /// IEEE 754 `<=`: false as soon as one side is a NaN.
    pub open spec fn leq(self, other: Double) -> bool {
        !self.nan() && !other.nan() && self.ordinal() <= other.ordinal()
    }

    /// The datum is a number above zero: finite, and neither of the zeros.
    pub open spec fn positive(self) -> bool {
        self.finite() && self.ordinal() > 0
    }

    /// The datum lies in the closed unit interval. Negative zero does,
    /// NaN does not.
    pub open spec fn in_unit_interval(self) -> bool {
        Double::zero().leq(self) && self.leq(Double::one())
    }

    pub open spec fn zero() -> Double {
        Double { bits: 0 }
    }

    pub open spec fn one() -> Double {
        Double { bits: ONE_BITS }
    }

    pub fn from_bits(bits: u64) -> (r: Double)
        ensures
            r.bits == bits,
    {
        Double { bits }
    }

    pub fn to_bits(self) -> (r: u64)
        ensures
            r == self.bits,
    {
        self.bits
    }

    fn magnitude_bits(self) -> (r: u64)
        ensures
            r == self.magnitude(),
    {
        if self.bits >= SIGN_BIT {
            self.bits - SIGN_BIT
        } else {
            self.bits
        }
    }

    pub fn is_nan(self) -> (r: bool)
        ensures
            r == self.nan(),
    {
        self.magnitude_bits() > INFINITY_BITS
    }

    pub fn is_finite(self) -> (r: bool)
        ensures
            r == self.finite(),
    {
        self.magnitude_bits() < INFINITY_BITS
    }

    /// IEEE 754 `self <= other`, decided on the bits.
    pub fn le(self, other: Double) -> (r: bool)
        ensures
            r == self.leq(other),
    {
        let a: u64 = self.magnitude_bits();
        let b: u64 = other.magnitude_bits();
        if a > INFINITY_BITS || b > INFINITY_BITS {
            return false;
        }
        proof {
            lemma_ulps_order(self, other);
            lemma_ulps_order(other, self);
            lemma_ulps_order(Double::zero(), self);
            lemma_ulps_order(Double::zero(), other);
        }
        if self.bits >= SIGN_BIT {
            if other.bits >= SIGN_BIT {
                b <= a
            } else {
                true
            }
        } else {
            if other.bits >= SIGN_BIT {
                a == 0 && b == 0
            } else {
                a <= b
            }
        }
    }

    /// Whether the datum is a number above zero.
    pub fn is_positive(self) -> (r: bool)
        ensures
            r == self.positive(),
            r == (self.finite() && self.value() > 0real),
    {
        proof {
            lemma_positive_by_value(self);
            lemma_ulps_order(Double::zero(), Double::zero());
        }
        self.is_finite() && !self.le(Double::from_bits(0))
    }

    /// IEEE 754 `self >= other`.
    pub fn ge(self, other: Double) -> (r: bool)
        ensures
            r == other.leq(self),
    {
        other.le(self)
    }
}

/// A lower magnitude counts fewer units: the unit count grows strictly
/// with the magnitude bits, across the exponent's steps too.
pub proof fn lemma_ulps_order(a: Double, b: Double)
    ensures
        a.magnitude() < b.magnitude() ==> a.ulps() < b.ulps(),
        a.magnitude() == b.magnitude() ==> a.ulps() == b.ulps(),
        a.magnitude() == 0 ==> a.ulps() == 0,
{
    let h = HIDDEN_BIT as nat;
    lemma2_to64();
    if a.magnitude() == 0 {
        assert(a.exponent() == 0 && a.fraction() == 0);
        assert(a.ulps() == 0) by (nonlinear_arith)
            requires
                a.ulps() == a.significand() * pow2(a.scale()),
                a.significand() == 0,
        ;
    }
    if a.magnitude() < b.magnitude() {
        let (ea, fa, eb, fb) = (a.exponent(), a.fraction(), b.exponent(), b.fraction());
        assert(a.magnitude() == ea * h + fa && fa < h) by (nonlinear_arith)
            requires
                ea == a.magnitude() / h,
                fa == a.magnitude() % h,
                h > 0,
        ;
        assert(b.magnitude() == eb * h + fb && fb < h) by (nonlinear_arith)
            requires
                eb == b.magnitude() / h,
                fb == b.magnitude() % h,
                h > 0,
        ;
        assert(ea <= eb) by (nonlinear_arith)
            requires
                ea * h + fa < eb * h + fb,
                fa < h,
                fb < h,
                h > 0,
        ;
        let pa = pow2(a.scale());
        let pb = pow2(b.scale());
        lemma_pow2_pos(a.scale());
        lemma_pow2_pos(b.scale());
        if ea == eb {
            assert(fa < fb);
            assert(a.significand() < b.significand());
            lemma_mul_strict_inequality(a.significand() as int, b.significand() as int, pa as int);
        } else {
            // The whole of `a` lies below the first datum of the next exponent.
            assert(1 <= eb);
            assert(b.significand() >= h);
            lemma_mul_inequality(h as int, b.significand() as int, pb as int);
            assert(h * pb <= b.ulps());
            if ea == 0 {
                assert(pa == 1);
                assert(a.ulps() == fa) by (nonlinear_arith)
                    requires
                        a.ulps() == a.significand() * pa,
                        a.significand() == fa,
                        pa == 1,
                ;
                assert(h * pb >= h) by (nonlinear_arith)
                    requires
                        pb >= 1,
                        h > 0,
                ;
            } else {
                assert(a.scale() + 1 <= b.scale());
                lemma_pow2_unfold((a.scale() + 1) as nat);
                if a.scale() + 1 < b.scale() {
                    lemma_pow2_strictly_increases((a.scale() + 1) as nat, b.scale());
                }
                assert(2 * pa <= pb);
                assert(a.ulps() < h * pb) by (nonlinear_arith)
                    requires
                        a.ulps() == (h + fa) * pa,
                        fa < h,
                        pa > 0,
                        2 * pa <= pb,
                        h > 0,
                ;
            }
        }
    }
}

/// On finite data the order of the bits' meaning is the order of the
/// numbers they denote.
pub proof fn lemma_leq_is_order_of_values(a: Double, b: Double)
    requires
        a.finite(),
        b.finite(),
    ensures
        a.leq(b) <==> a.value() <= b.value(),
{
    lemma_pow2_pos(1074);
    let c = pow2(1074) as real;
    let x = a.ordinal() as real;
    let y = b.ordinal() as real;
    assert(c > 0real);
    assert((x <= y) <==> (x / c <= y / c)) by (nonlinear_arith)
        requires
            c > 0real,
    ;
}

/// Zero denotes 0 and one denotes 1.
pub proof fn lemma_unit_values()
    ensures
        Double::zero().finite(),
        Double::one().finite(),
        Double::zero().value() == 0real,
        Double::one().value() == 1real,
        Double::zero().ordinal() == 0,
        Double::one().ordinal() == pow2(1074),
{
    lemma2_to64();
    lemma2_to64_rest();
    lemma_pow2_pos(1074);
    lemma_ulps_order(Double::zero(), Double::zero());
    let one = Double::one();
    assert(one.magnitude() == ONE_BITS);
    assert(one.exponent() == 1023);
    assert(one.fraction() == 0);
    assert(one.scale() == 1022);
    lemma_pow2_adds(52, 1022);
    assert(one.ulps() == pow2(1074));
    let c = pow2(1074) as real;
    assert(c / c == 1real) by (nonlinear_arith)
        requires
            c > 0real,
    ;
    assert(0real / c == 0real) by (nonlinear_arith)
        requires
            c > 0real,
    ;
}

/// A finite datum is positive exactly when the number it denotes is, and
/// one of the zeros exactly when that number is 0.
pub proof fn lemma_positive_by_value(x: Double)
    ensures
        x.positive() <==> x.finite() && x.value() > 0real,
        x.finite() ==> (x.ordinal() == 0 <==> x.value() == 0real),
{
    if x.finite() {
        lemma_unit_values();
        lemma_leq_is_order_of_values(x, Double::zero());
        lemma_leq_is_order_of_values(Double::zero(), x);
    }
}

/// A finite datum lies in the closed unit interval exactly when the
/// number it denotes does.
pub proof fn lemma_unit_interval_by_value(x: Double)
    requires
        x.finite(),
    ensures
        x.in_unit_interval() <==> 0real <= x.value() <= 1real,
{
    lemma_unit_values();
    lemma_leq_is_order_of_values(Double::zero(), x);
    lemma_leq_is_order_of_values(x, Double::one());
}

/// Nothing but a finite datum lies in the closed unit interval.
pub proof fn lemma_unit_interval_is_finite(x: Double)
    requires
        x.in_unit_interval(),
    ensures
        x.finite(),
{
    lemma_unit_values();
    if x.magnitude() == INFINITY_BITS {
        // An infinity is below zero or beyond one.
        lemma_ulps_order(Double::one(), x);
        assert(Double::one().magnitude() == ONE_BITS);
        assert(Double::one().ulps() < x.ulps());
    }
}

/// Data other than NaN are ordered in a line, where only data of the same
/// number fall together; a NaN compares with nothing, itself included.
pub proof fn lemma_leq_orders(a: Double, b: Double, c: Double)
    ensures
        !a.nan() ==> a.leq(a),
        a.leq(b) && b.leq(c) ==> a.leq(c),
        !a.nan() && !b.nan() ==> a.leq(b) || b.leq(a),
        a.nan() ==> !a.leq(b) && !b.leq(a),
        a.finite() && b.finite() ==> (a.leq(b) && b.leq(a) <==> a.value() == b.value()),
{
    if a.finite() && b.finite() {
        lemma_leq_is_order_of_values(a, b);
        lemma_leq_is_order_of_values(b, a);
    }
}

} // verus!
