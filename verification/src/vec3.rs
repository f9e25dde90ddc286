//! Triples of scalars: directions, points and colours.

use vstd::prelude::*;
use crate::scalar::Scalar;
use crate::scalar::min_spec;
use crate::random::random_bits;

verus! {

#[derive(Debug, PartialEq)]
pub struct Vec3<T>(pub T, pub T, pub T);

impl<T: Copy> Clone for Vec3<T> {
    fn clone(&self) -> (r: Self)
        ensures
            r == *self,
    {
        Vec3(self.0, self.1, self.2)
    }
}

impl<T: Copy> Copy for Vec3<T> {}

/// A position in space.
pub type Point3<T> = Vec3<T>;

/// An amount of red, green and blue light.
pub type Colour<T> = Vec3<T>;

impl<T> Vec3<T> {
    pub fn new(x: T, y: T, z: T) -> (r: Self)
        ensures
            r == Vec3(x, y, z),
    {
        Vec3(x, y, z)
    }
}

impl<T: Copy> Vec3<T> {
    pub fn x(&self) -> (r: T)
        ensures
            r == self.0,
    {
        self.0
    }

    pub fn y(&self) -> (r: T)
        ensures
            r == self.1,
    {
        self.1
    }

    pub fn z(&self) -> (r: T)
        ensures
            r == self.2,
    {
        self.2
    }
}

impl<T: Scalar> Vec3<T> {
    /// The triple of zeros: the origin, and the colour black.
    pub open spec fn zero_spec() -> Self {
        Vec3(T::zero_spec(), T::zero_spec(), T::zero_spec())
    }

    pub open spec fn sum(self, rhs: Self) -> Self {
        Vec3(self.0.sum(rhs.0), self.1.sum(rhs.1), self.2.sum(rhs.2))
    }

    pub open spec fn difference(self, rhs: Self) -> Self {
        Vec3(self.0.difference(rhs.0), self.1.difference(rhs.1), self.2.difference(rhs.2))
    }

    /// The component-wise product.
    pub open spec fn product(self, rhs: Self) -> Self {
        Vec3(self.0.product(rhs.0), self.1.product(rhs.1), self.2.product(rhs.2))
    }

    pub open spec fn scale(self, k: T) -> Self {
        Vec3(self.0.product(k), self.1.product(k), self.2.product(k))
    }

    pub open spec fn shrink(self, k: T) -> Self {
        Vec3(self.0.quotient(k), self.1.quotient(k), self.2.quotient(k))
    }

    pub open spec fn negation(self) -> Self {
        Vec3(self.0.negation(), self.1.negation(), self.2.negation())
    }

    pub open spec fn length_squared_spec(self) -> T {
        self.0.product(self.0).sum(self.1.product(self.1)).sum(self.2.product(self.2))
    }

    pub open spec fn length_spec(self) -> T {
        self.length_squared_spec().square_root()
    }

    pub open spec fn unit_vector_spec(self) -> Self {
        self.shrink(self.length_spec())
    }

    pub open spec fn dot_spec(self, other: Self) -> T {
        self.0.product(other.0).sum(self.1.product(other.1)).sum(self.2.product(other.2))
    }

    /// The mirror image of `self` in the plane whose normal is `other`.
    pub open spec fn reflect_spec(self, other: Self) -> Self {
        self.difference(
            other.scale(self.dot_spec(other)).scale(T::one_spec().sum(T::one_spec())),
        )
    }

    /// The part of the refracted direction that lies in the surface.
    pub open spec fn refract_perp(self, other: Self, etai_over_etat: T) -> Self {
        let cos_theta = min_spec(self.negation().dot_spec(other), T::one_spec());
        self.sum(other.scale(cos_theta)).scale(etai_over_etat)
    }

    /// The direction of `self` after it crosses a surface with normal `other`
    /// and ratio of refractive indices `etai_over_etat` (Snell's law).
    pub open spec fn refract_spec(self, other: Self, etai_over_etat: T) -> Self {
        let perp = self.refract_perp(other, etai_over_etat);
        let parallel = other.scale(
            T::one_spec().difference(perp.length_squared_spec()).absolute().square_root().negation(),
        );
        perp.sum(parallel)
    }

    pub open spec fn cross_spec(self, other: Self) -> Self {
        Vec3(
            self.1.product(other.2).difference(self.2.product(other.1)),
            self.2.product(other.0).difference(self.0.product(other.2)),
            self.0.product(other.1).difference(self.1.product(other.0)),
        )
    }

    /// The point inside the unit ball that four blocks of random bits stand
    /// for: a direction from the first three, a radius from the fourth.
    pub open spec fn in_unit_sphere_spec(bits: (u64, u64, u64, u64)) -> Self {
        let v = Vec3(
            T::unit_sample_spec(bits.0),
            T::unit_sample_spec(bits.1),
            T::unit_sample_spec(bits.2),
        );
        v.shrink(v.length_spec()).scale(T::unit_sample_spec(bits.3).cube_root())
    }

    /// The point on the unit disk that two blocks of random bits stand for:
    /// a radius from the first, an angle from the second.
    pub open spec fn in_unit_disk_spec(bits: (u64, u64)) -> Self {
        let r = T::unit_sample_spec(bits.0).square_root();
        let theta = T::unit_sample_spec(bits.1).product(T::one_spec().sum(T::one_spec())).product(
            T::pi_spec(),
        );
        Vec3(r.product(theta.cosine()), r.product(theta.sine()), T::zero_spec())
    }

    /// The colour that three blocks of random bits stand for.
    pub open spec fn random_spec(bits: (u64, u64, u64)) -> Self {
        Vec3(
            T::unit_sample_spec(bits.0),
            T::unit_sample_spec(bits.1),
            T::unit_sample_spec(bits.2),
        )
    }

    /// The byte that one part of a colour is stored as: its square root, to
    /// make up for the way screens darken, on a scale from 0 to 255.
    pub open spec fn channel_spec(part: T) -> u8 {
        T::ratio_spec(255_999, 1000).product(part.square_root()).byte_spec()
    }

    pub fn zero() -> (r: Self)
        ensures
            r == Self::zero_spec(),
    {
        Vec3(T::zero(), T::zero(), T::zero())
    }

    pub fn plus(self, rhs: Self) -> (r: Self)
        ensures
            r == self.sum(rhs),
    {
        Vec3(self.0.plus(rhs.0), self.1.plus(rhs.1), self.2.plus(rhs.2))
    }

    pub fn minus(self, rhs: Self) -> (r: Self)
        ensures
            r == self.difference(rhs),
    {
        Vec3(self.0.minus(rhs.0), self.1.minus(rhs.1), self.2.minus(rhs.2))
    }

    pub fn times(self, rhs: Self) -> (r: Self)
        ensures
            r == self.product(rhs),
    {
        Vec3(self.0.times(rhs.0), self.1.times(rhs.1), self.2.times(rhs.2))
    }

    pub fn scaled(self, k: T) -> (r: Self)
        ensures
            r == self.scale(k),
    {
        Vec3(self.0.times(k), self.1.times(k), self.2.times(k))
    }

    pub fn divided(self, k: T) -> (r: Self)
        ensures
            r == self.shrink(k),
    {
        Vec3(self.0.over(k), self.1.over(k), self.2.over(k))
    }

    pub fn negated(self) -> (r: Self)
        ensures
            r == self.negation(),
    {
        Vec3(self.0.neg(), self.1.neg(), self.2.neg())
    }

    pub fn length_squared(&self) -> (r: T)
        ensures
            r == self.length_squared_spec(),
    {
        self.0.times(self.0).plus(self.1.times(self.1)).plus(self.2.times(self.2))
    }

    pub fn length(&self) -> (r: T)
        ensures
            r == self.length_spec(),
    {
        self.length_squared().sqrt()
    }

    pub fn unit_vector(self) -> (r: Self)
        ensures
            r == self.unit_vector_spec(),
    {
        self.divided(self.length())
    }

    pub fn dot(&self, other: &Self) -> (r: T)
        ensures
            r == self.dot_spec(*other),
    {
        self.0.times(other.0).plus(self.1.times(other.1)).plus(self.2.times(other.2))
    }

    pub fn reflect(&self, other: &Self) -> (r: Self)
        ensures
            r == self.reflect_spec(*other),
    {
        self.minus(other.scaled(self.dot(other)).scaled(T::one().plus(T::one())))
    }

    pub fn refract(&self, other: &Self, etai_over_etat: T) -> (r: Self)
        ensures
            r == self.refract_spec(*other, etai_over_etat),
    {
        let cos_theta = crate::scalar::min(self.negated().dot(other), T::one());
        let r_out_perp = self.plus(other.scaled(cos_theta)).scaled(etai_over_etat);
        let r_out_parallel = other.scaled(
            T::one().minus(r_out_perp.length_squared()).abs().sqrt().neg(),
        );
        r_out_perp.plus(r_out_parallel)
    }

    pub fn cross(&self, other: &Self) -> (r: Self)
        ensures
            r == self.cross_spec(*other),
    {
        Vec3(
            self.1.times(other.2).minus(self.2.times(other.1)),
            self.2.times(other.0).minus(self.0.times(other.2)),
            self.0.times(other.1).minus(self.1.times(other.0)),
        )
    }

    /// The point of `in_unit_sphere_spec` for given random bits.
    pub fn in_unit_sphere(bits: (u64, u64, u64, u64)) -> (r: Self)
        ensures
            r == Self::in_unit_sphere_spec(bits),
    {
        let v = Vec3(T::unit_sample(bits.0), T::unit_sample(bits.1), T::unit_sample(bits.2));
        let mag = v.length();
        let c = T::unit_sample(bits.3).cbrt();
        v.divided(mag).scaled(c)
    }

    /// A point inside the unit ball, from fresh random bits.
    pub fn random_in_unit_sphere() -> (r: Self)
        ensures
            exists|bits: (u64, u64, u64, u64)| r == #[trigger] Self::in_unit_sphere_spec(bits),
    {
        let bits = (random_bits(), random_bits(), random_bits(), random_bits());
        Self::in_unit_sphere(bits)
    }

    /// The colour of `random_spec` for given random bits.
    pub fn random_with(bits: (u64, u64, u64)) -> (r: Self)
        ensures
            r == Self::random_spec(bits),
    {
        Vec3(T::unit_sample(bits.0), T::unit_sample(bits.1), T::unit_sample(bits.2))
    }

    /// A colour, from fresh random bits.
    pub fn random() -> (r: Self)
        ensures
            exists|bits: (u64, u64, u64)| r == #[trigger] Self::random_spec(bits),
    {
        Self::random_with((random_bits(), random_bits(), random_bits()))
    }

    /// The three bytes that a colour is stored as: red, green, blue.
    pub fn into_rgb(self) -> (r: [u8; 3])
        ensures
            r@ == seq![
                Self::channel_spec(self.0),
                Self::channel_spec(self.1),
                Self::channel_spec(self.2),
            ],
    {
        let multiplier = T::ratio(255_999, 1000);
        let r = multiplier.times(self.0.sqrt()).to_byte();
        let g = multiplier.times(self.1.sqrt()).to_byte();
        let b = multiplier.times(self.2.sqrt()).to_byte();
        [r, g, b]
    }

    /// The point of `in_unit_disk_spec` for given random bits.
    pub fn in_unit_disk(bits: (u64, u64)) -> (r: Self)
        ensures
            r == Self::in_unit_disk_spec(bits),
    {
        let r = T::unit_sample(bits.0).sqrt();
        let theta = T::unit_sample(bits.1).times(T::one().plus(T::one())).times(T::pi());
        Vec3(r.times(theta.cos()), r.times(theta.sin()), T::zero())
    }

    /// A point on the unit disk, from fresh random bits.
    pub fn random_in_unit_disk() -> (r: Self)
        ensures
            exists|bits: (u64, u64)| r == #[trigger] Self::in_unit_disk_spec(bits),
    {
        let bits = (random_bits(), random_bits());
        Self::in_unit_disk(bits)
    }

    /// A direction of length one, from fresh random bits.
    pub fn random_unit_vector() -> (r: Self)
        ensures
            exists|bits: (u64, u64, u64, u64)|
                r == (#[trigger] Self::in_unit_sphere_spec(bits)).unit_vector_spec(),
    {
        Self::random_in_unit_sphere().unit_vector()
    }
}

} // verus!
