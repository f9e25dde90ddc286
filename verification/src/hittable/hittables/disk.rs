//! Flat round plates.

use vstd::prelude::*;
use crate::hittable::bounding_box::BoundingBox;
use crate::hittable::hit_record::HitRecord;
use crate::hittable::hittable::Hittable;
use crate::hittable::interval::Interval;
use crate::hittable::hittables::plane::plane_parameter;
use crate::hittable::hittables::plane::plane_crossing;
use crate::material::Material;
use crate::ray::Ray;
use crate::scalar::Scalar;
use crate::scalar::lt;
use crate::scalar::less;
use crate::vec3::Point3;
use crate::vec3::Vec3;

verus! {

pub struct Disk<T> {
    pub center: Point3<T>,
    pub normal: Vec3<T>,
    pub radius: T,
    pub material: Material<T>,
}

impl<T: Scalar> Disk<T> {
    /// The parameter of the hit: that at which the ray crosses the plane of
    /// the disk, if `ray_t` admits it and the crossing lies no farther from
    /// the centre than the radius.
    pub open spec fn hit_parameter(&self, ray: Ray<T>, ray_t: Interval<T>) -> Option<T> {
        match plane_parameter(self.center, self.normal, ray, ray_t) {
            Some(t) => if lt(
                self.radius,
                ray.at_spec(t).difference(self.center).length_spec(),
            ) {
                None
            } else {
                Some(t)
            },
            None => None,
        }
    }

    pub open spec fn hit_spec<'a>(&'a self, ray: Ray<T>, ray_t: Interval<T>) -> Option<
        HitRecord<'a, T>,
    > {
        match self.hit_parameter(ray, ray_t) {
            Some(t) => Some(HitRecord::new_spec(ray.at_spec(t), t, ray, self.normal, &self.material)),
            None => None,
        }
    }

    /// The cube about the centre whose sides are two radii long.
    pub open spec fn bounding_box_spec(&self) -> BoundingBox<T> {
        let r_vec = Vec3(self.radius, self.radius, self.radius);
        BoundingBox::new_spec(self.center.difference(r_vec), self.center.sum(r_vec))
    }

    pub fn new(center: Point3<T>, normal: Vec3<T>, radius: T, material: Material<T>) -> (r: Self)
        ensures
            r.center == center,
            r.normal == normal,
            r.radius == radius,
            r.material == material,
    {
        Disk { center, normal, radius, material }
    }

    pub fn into(self) -> (r: Hittable<T>)
        ensures
            r == Hittable::Disk(self),
    {
        Hittable::Disk(self)
    }

    /// The place within `ray_t` where the ray meets the disk.
    pub fn hit<'a>(&'a self, ray: &Ray<T>, ray_t: &Interval<T>) -> (r: Option<HitRecord<'a, T>>)
        ensures
            r == self.hit_spec(*ray, *ray_t),
    {
        let t = match plane_crossing(&self.center, &self.normal, ray, ray_t) {
            Some(t) => t,
            None => {
                return None;
            },
        };
        let location = ray.at(t);
        if less(self.radius, location.minus(self.center).length()) {
            return None;
        }
        Some(HitRecord::new(ray.at(t), t, ray, self.normal, &self.material))
    }

    pub fn bounding_box(&self) -> (r: BoundingBox<T>)
        ensures
            r == self.bounding_box_spec(),
    {
        let r_vec = Vec3::new(self.radius, self.radius, self.radius);
        BoundingBox::new(self.center.minus(r_vec), self.center.plus(r_vec))
    }
}

} // verus!
