//! Spheres.

use vstd::prelude::*;
use crate::hittable::bounding_box::BoundingBox;
use crate::hittable::hit_record::HitRecord;
use crate::hittable::hittable::Hittable;
use crate::hittable::interval::Interval;
use crate::material::Material;
use crate::ray::Ray;
use crate::scalar::Scalar;
use crate::scalar::lt;
use crate::scalar::less;
use crate::vec3::Point3;
use crate::vec3::Vec3;

verus! {

pub struct Sphere<T> {
    pub center: Point3<T>,
    pub radius: T,
    pub material: Material<T>,
}

impl<T: Scalar> Sphere<T> {
    /// The discriminant, divided by four, of the quadratic in the ray
    /// parameter that says the ray is on the sphere.
    pub open spec fn discriminant(&self, ray: Ray<T>) -> T {
        let oc = ray.origin.difference(self.center);
        let a = ray.direction.length_squared_spec();
        let half_b = oc.dot_spec(ray.direction);
        let c = oc.length_squared_spec().difference(self.radius.product(self.radius));
        half_b.product(half_b).difference(a.product(c))
    }

    /// The parameter at which the ray enters the sphere.
    pub open spec fn near_root(&self, ray: Ray<T>) -> T {
        let oc = ray.origin.difference(self.center);
        let a = ray.direction.length_squared_spec();
        let half_b = oc.dot_spec(ray.direction);
        half_b.negation().difference(self.discriminant(ray).square_root()).quotient(a)
    }

    /// The parameter at which the ray leaves the sphere.
    pub open spec fn far_root(&self, ray: Ray<T>) -> T {
        let oc = ray.origin.difference(self.center);
        let a = ray.direction.length_squared_spec();
        let half_b = oc.dot_spec(ray.direction);
        half_b.negation().sum(self.discriminant(ray).square_root()).quotient(a)
    }

    /// The parameter of the hit: the nearer crossing if `ray_t` admits it,
    /// else the farther one if `ray_t` admits that; nothing if the ray passes
    /// the sphere by or `ray_t` admits neither crossing.
    pub open spec fn hit_parameter(&self, ray: Ray<T>, ray_t: Interval<T>) -> Option<T> {
        if lt(self.discriminant(ray), T::zero_spec()) {
            None
        } else if !ray_t.excludes(self.near_root(ray)) {
            Some(self.near_root(ray))
        } else if !ray_t.excludes(self.far_root(ray)) {
            Some(self.far_root(ray))
        } else {
            None
        }
    }

    /// The record of a hit at parameter `t`: the normal points from the
    /// centre to the place of the hit, then is turned to face the ray.
    pub open spec fn record_at<'a>(&'a self, ray: Ray<T>, t: T) -> HitRecord<'a, T> {
        let p = ray.at_spec(t);
        HitRecord::new_spec(p, t, ray, p.difference(self.center).shrink(self.radius), &self.material)
    }

    pub open spec fn hit_spec<'a>(&'a self, ray: Ray<T>, ray_t: Interval<T>) -> Option<
        HitRecord<'a, T>,
    > {
        match self.hit_parameter(ray, ray_t) {
            Some(t) => Some(self.record_at(ray, t)),
            None => None,
        }
    }

    /// The cube about the centre whose sides are two radii long.
    pub open spec fn bounding_box_spec(&self) -> BoundingBox<T> {
        let r_vec = Vec3(self.radius, self.radius, self.radius);
        BoundingBox::new_spec(self.center.difference(r_vec), self.center.sum(r_vec))
    }

    pub fn new(center: Point3<T>, radius: T, material: Material<T>) -> (r: Self)
        ensures
            r.center == center,
            r.radius == radius,
            r.material == material,
    {
        Sphere { center, radius, material }
    }

    pub fn into(self) -> (r: Hittable<T>)
        ensures
            r == Hittable::Sphere(self),
    {
        Hittable::Sphere(self)
    }

    /// The closest place within `ray_t` where the ray meets the sphere.
    pub fn hit<'a>(&'a self, ray: &Ray<T>, ray_t: &Interval<T>) -> (r: Option<HitRecord<'a, T>>)
        ensures
            r == self.hit_spec(*ray, *ray_t),
    {
        let oc = ray.origin.minus(self.center);
        let a = ray.direction.length_squared();
        let half_b = oc.dot(&ray.direction);
        let c = oc.length_squared().minus(self.radius.times(self.radius));
        let discriminant = half_b.times(half_b).minus(a.times(c));
        if less(discriminant, T::zero()) {
            return None;
        }
        let sqrtd = discriminant.sqrt();
        let mut root = half_b.neg().minus(sqrtd).over(a);
        if ray_t.shuts_out(root) {
            root = half_b.neg().plus(sqrtd).over(a);
            if ray_t.shuts_out(root) {
                return None;
            }
        }
        let p = ray.at(root);
        let outward_normal = p.minus(self.center).divided(self.radius);
        Some(HitRecord::new(p, root, ray, outward_normal, &self.material))
    }

    pub fn bounding_box(&self) -> (r: BoundingBox<T>)
        ensures
            r == self.bounding_box_spec(),
    {
        let r_vec = Vec3::new(self.radius, self.radius, self.radius);
        BoundingBox::new(self.center.minus(r_vec), self.center.plus(r_vec))
    }
}

} // verus!
