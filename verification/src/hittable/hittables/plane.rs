//! Planes without end.

use vstd::prelude::*;
use crate::hittable::bounding_box::BoundingBox;
use crate::hittable::hit_record::HitRecord;
use crate::hittable::hittable::Hittable;
use crate::hittable::interval::Interval;
use crate::material::Material;
use crate::ray::Ray;
use crate::scalar::Scalar;
use crate::scalar::lt;
use crate::scalar::less;
use crate::vec3::Point3;
use crate::vec3::Vec3;

verus! {

/// Below this the ray is taken to run along the plane.
pub open spec fn parallel_threshold<T: Scalar>() -> T {
    T::ratio_spec(1, 1_000_000)
}

/// The ray parameter at which a ray meets the plane through `center` with
/// the given normal: how far the plane lies from the ray's origin along the
/// normal, over how fast the ray moves along the normal.
pub open spec fn plane_time<T: Scalar>(center: Point3<T>, normal: Vec3<T>, ray: Ray<T>) -> T {
    center.difference(ray.origin).dot_spec(normal).quotient(normal.dot_spec(ray.direction))
}

/// The parameter at which a ray crosses the plane through `center` with the
/// given normal, if the ray does not run along the plane and `ray_t` admits
/// the crossing.
pub open spec fn plane_parameter<T: Scalar>(
    center: Point3<T>,
    normal: Vec3<T>,
    ray: Ray<T>,
    ray_t: Interval<T>,
) -> Option<T> {
    let denom = normal.dot_spec(ray.direction);
    let t = plane_time(center, normal, ray);
    if lt(denom.absolute(), parallel_threshold::<T>()) {
        None
    } else if ray_t.excludes(t) {
        None
    } else {
        Some(t)
    }
}

pub fn plane_crossing<T: Scalar>(
    center: &Point3<T>,
    normal: &Vec3<T>,
    ray: &Ray<T>,
    ray_t: &Interval<T>,
) -> (r: Option<T>)
    ensures
        r == plane_parameter(*center, *normal, *ray, *ray_t),
{
    let denom = normal.dot(&ray.direction);
    if less(denom.abs(), T::ratio(1, 1_000_000)) {
        return None;
    }
    let t = center.minus(ray.origin).dot(normal).over(denom);
    if ray_t.shuts_out(t) {
        return None;
    }
    Some(t)
}

pub struct Plane<T> {
    pub center: Point3<T>,
    pub normal: Vec3<T>,
    pub material: Material<T>,
}

impl<T: Scalar> Plane<T> {
    pub open spec fn hit_spec<'a>(&'a self, ray: Ray<T>, ray_t: Interval<T>) -> Option<
        HitRecord<'a, T>,
    > {
        match plane_parameter(self.center, self.normal, ray, ray_t) {
            Some(t) => Some(HitRecord::new_spec(ray.at_spec(t), t, ray, self.normal, &self.material)),
            None => None,
        }
    }

    /// All of space: a plane has no end along any axis.
    pub open spec fn bounding_box_spec(&self) -> BoundingBox<T> {
        let all = Interval { min: T::infinity_spec().negation(), max: T::infinity_spec() };
        BoundingBox { x: all, y: all, z: all }
    }

    pub fn new(center: Point3<T>, normal: Vec3<T>, material: Material<T>) -> (r: Self)
        ensures
            r.center == center,
            r.normal == normal,
            r.material == material,
    {
        Plane { center, normal, material }
    }

    pub fn into(self) -> (r: Hittable<T>)
        ensures
            r == Hittable::Plane(self),
    {
        Hittable::Plane(self)
    }

    /// The place within `ray_t` where the ray crosses the plane.
    pub fn hit<'a>(&'a self, ray: &Ray<T>, ray_t: &Interval<T>) -> (r: Option<HitRecord<'a, T>>)
        ensures
            r == self.hit_spec(*ray, *ray_t),
    {
        match plane_crossing(&self.center, &self.normal, ray, ray_t) {
            Some(t) => Some(HitRecord::new(ray.at(t), t, ray, self.normal, &self.material)),
            None => None,
        }
    }

    pub fn bounding_box(&self) -> (r: BoundingBox<T>)
        ensures
            r == self.bounding_box_spec(),
    {
        let all = Interval { min: T::infinity().neg(), max: T::infinity() };
        BoundingBox { x: all, y: all, z: all }
    }
}

} // verus!
