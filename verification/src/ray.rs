//! Rays: half-lines through space, walked by a parameter.

use vstd::prelude::*;
use crate::scalar::Scalar;
use crate::vec3::Point3;
use crate::vec3::Vec3;

verus! {

#[derive(Debug, PartialEq)]
pub struct Ray<T> {
    pub origin: Point3<T>,
    pub direction: Vec3<T>,
}

impl<T: Copy> Clone for Ray<T> {
    fn clone(&self) -> (r: Self)
        ensures
            r == *self,
    {
        Ray { origin: self.origin, direction: self.direction }
    }
}

impl<T: Copy> Copy for Ray<T> {}

impl<T: Scalar> Ray<T> {
    /// The point reached after walking `t` times the direction.
    pub open spec fn at_spec(self, t: T) -> Point3<T> {
        self.origin.sum(self.direction.scale(t))
    }

    pub fn new(origin: Point3<T>, direction: Vec3<T>) -> (r: Self)
        ensures
            r == (Ray { origin, direction }),
    {
        Ray { origin, direction }
    }

    pub fn at(&self, t: T) -> (r: Point3<T>)
        ensures
            r == self.at_spec(t),
    {
        self.origin.plus(self.direction.scaled(t))
    }
}

} // verus!
