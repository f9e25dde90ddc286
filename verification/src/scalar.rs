//! The numbers the tracer computes with.
//!
//! The tracer never looks inside a number. It combines numbers with the
//! operations below and compares them with `le`. Each operation has a spec
//! function that names its result, so that every contract in the crate can say
//! exactly which operations produced a value and in which order. The order is
//! the only structure the proofs rely on: it is a total preorder on the values
//! for which `is_number` holds.

use vstd::prelude::*;

verus! {

pub trait Scalar: Sized + Copy {
    /// The additive unit.
    spec fn zero_spec() -> Self;

    /// The multiplicative unit.
    spec fn one_spec() -> Self;

    /// A value that no number exceeds.
    spec fn infinity_spec() -> Self;

    /// The number nearest to `num / den`, where `den` is not zero.
    spec fn ratio_spec(num: i64, den: i64) -> Self;

    /// The number in `[0, 1)` that a block of uniformly random bits stands for.
    spec fn unit_sample_spec(bits: u64) -> Self;

    spec fn sum(self, rhs: Self) -> Self;

    spec fn difference(self, rhs: Self) -> Self;

    spec fn product(self, rhs: Self) -> Self;

    spec fn quotient(self, rhs: Self) -> Self;

    spec fn negation(self) -> Self;

    /// The distance of the value from zero.
    spec fn absolute(self) -> Self;

    spec fn square_root(self) -> Self;

    spec fn cube_root(self) -> Self;

    spec fn floor_spec(self) -> Self;

    /// The ratio of a circle's circumference to its diameter.
    spec fn pi_spec() -> Self;

    /// The sine of an angle given in radians.
    spec fn sine(self) -> Self;

    /// The cosine of an angle given in radians.
    spec fn cosine(self) -> Self;

    /// The tangent of an angle given in radians.
    spec fn tangent(self) -> Self;

    spec fn remainder(self, rhs: Self) -> Self;

    /// The whole part of the value, held to what a byte can hold.
    spec fn byte_spec(self) -> u8;

    /// Whether the value takes part in the order (a value that stands for an
    /// undefined result does not).
    spec fn is_number(self) -> bool;

    /// The order: `self` is at most `rhs`.
    spec fn le(self, rhs: Self) -> bool;

    fn zero() -> (r: Self)
        ensures
            r == Self::zero_spec(),
    ;

    fn one() -> (r: Self)
        ensures
            r == Self::one_spec(),
    ;

    fn infinity() -> (r: Self)
        ensures
            r == Self::infinity_spec(),
    ;

    fn ratio(num: i64, den: i64) -> (r: Self)
        ensures
            r == Self::ratio_spec(num, den),
    ;

    fn unit_sample(bits: u64) -> (r: Self)
        ensures
            r == Self::unit_sample_spec(bits),
    ;

    fn plus(self, rhs: Self) -> (r: Self)
        ensures
            r == self.sum(rhs),
    ;

    fn minus(self, rhs: Self) -> (r: Self)
        ensures
            r == self.difference(rhs),
    ;

    fn times(self, rhs: Self) -> (r: Self)
        ensures
            r == self.product(rhs),
    ;

    fn over(self, rhs: Self) -> (r: Self)
        ensures
            r == self.quotient(rhs),
    ;

    fn neg(self) -> (r: Self)
        ensures
            r == self.negation(),
    ;

    fn abs(self) -> (r: Self)
        ensures
            r == self.absolute(),
    ;

    fn sqrt(self) -> (r: Self)
        ensures
            r == self.square_root(),
    ;

    fn cbrt(self) -> (r: Self)
        ensures
            r == self.cube_root(),
    ;

    fn floor(self) -> (r: Self)
        ensures
            r == self.floor_spec(),
    ;

    fn pi() -> (r: Self)
        ensures
            r == Self::pi_spec(),
    ;

    fn sin(self) -> (r: Self)
        ensures
            r == self.sine(),
    ;

    fn cos(self) -> (r: Self)
        ensures
            r == self.cosine(),
    ;

    fn tan(self) -> (r: Self)
        ensures
            r == self.tangent(),
    ;

    fn rem(self, rhs: Self) -> (r: Self)
        ensures
            r == self.remainder(rhs),
    ;

    fn to_byte(self) -> (r: u8)
        ensures
            r == self.byte_spec(),
    ;

    fn at_most(self, rhs: Self) -> (r: bool)
        ensures
            r == self.le(rhs),
    ;

    /// Only numbers are ordered.
    proof fn le_numbers(a: Self, b: Self)
        requires
            a.le(b),
        ensures
            a.is_number(),
            b.is_number(),
    ;

    /// Any two numbers are ordered one way or the other.
    proof fn le_total(a: Self, b: Self)
        requires
            a.is_number(),
            b.is_number(),
        ensures
            a.le(b) || b.le(a),
    ;

    proof fn le_transitive(a: Self, b: Self, c: Self)
        requires
            a.le(b),
            b.le(c),
        ensures
            a.le(c),
    ;

    /// Zero is a number.
    proof fn zero_is_number()
        ensures
            Self::zero_spec().is_number(),
    ;

    /// A ratio of whole numbers is a number.
    proof fn ratio_is_number(num: i64, den: i64)
        requires
            den != 0,
        ensures
            Self::ratio_spec(num, den).is_number(),
    ;

    /// No number exceeds infinity.
    proof fn infinity_is_greatest(a: Self)
        requires
            a.is_number(),
        ensures
            a.le(Self::infinity_spec()),
    ;
}

/// `a` is strictly below `b`.
pub open spec fn lt<T: Scalar>(a: T, b: T) -> bool {
    a.le(b) && !b.le(a)
}

/// `a` and `b` occupy the same place in the order.
pub open spec fn same<T: Scalar>(a: T, b: T) -> bool {
    a.le(b) && b.le(a)
}

/// The smaller of two numbers. Of a number and a value that is none, the
/// number.
pub open spec fn min_spec<T: Scalar>(a: T, b: T) -> T {
    if !b.le(b) || a.le(b) {
        a
    } else {
        b
    }
}

/// The larger of two numbers. Of a number and a value that is none, the
/// number.
pub open spec fn max_spec<T: Scalar>(a: T, b: T) -> T {
    if !b.le(b) || lt(b, a) {
        a
    } else {
        b
    }
}

pub fn less<T: Scalar>(a: T, b: T) -> (r: bool)
    ensures
        r == lt(a, b),
{
    a.at_most(b) && !b.at_most(a)
}

pub fn alike<T: Scalar>(a: T, b: T) -> (r: bool)
    ensures
        r == same(a, b),
{
    a.at_most(b) && b.at_most(a)
}

pub fn min<T: Scalar>(a: T, b: T) -> (r: T)
    ensures
        r == min_spec(a, b),
{
    if !b.at_most(b) || a.at_most(b) {
        a
    } else {
        b
    }
}

pub fn max<T: Scalar>(a: T, b: T) -> (r: T)
    ensures
        r == max_spec(a, b),
{
    if !b.at_most(b) || less(b, a) {
        a
    } else {
        b
    }
}

} // verus!
