//! The shape that is not there.

use vstd::prelude::*;
use crate::hittable::bounding_box::BoundingBox;
use crate::hittable::hit_record::HitRecord;
use crate::hittable::hittable::Hittable;
use crate::hittable::interval::Interval;
use crate::ray::Ray;
use crate::scalar::Scalar;

verus! {

/// A stand-in for a missing child of a tree node. No ray ever hits it.
#[derive(Clone, Copy, Debug, PartialEq, Eq)]
pub struct NotHittable;

impl NotHittable {
    pub fn into<T>(self) -> (r: Hittable<T>)
        ensures
            r == Hittable::<T>::NotHittable(self),
    {
        Hittable::NotHittable(self)
    }

    /// Always the empty box.
    pub fn bounding_box<T: Scalar>(&self) -> (r: BoundingBox<T>)
        ensures
            r == BoundingBox::<T>::empty_spec(),
    {
        BoundingBox::empty()
    }

    /// Always nothing.
    pub fn hit<'a, T: Scalar>(&'a self, ray: &Ray<T>, ray_t: &Interval<T>) -> (r: Option<
        HitRecord<'a, T>,
    >)
        ensures
            r.is_none(),
    {
        None
    }
}

} // verus!
