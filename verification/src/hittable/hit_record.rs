//! What is known of the place where a ray struck a surface.

use vstd::prelude::*;
use crate::material::Material;
use crate::ray::Ray;
use crate::scalar::Scalar;
use crate::scalar::lt;
use crate::scalar::less;
use crate::vec3::Point3;
use crate::vec3::Vec3;

verus! {

pub struct HitRecord<'a, T> {
    /// Where the ray struck.
    pub hit_location: Point3<T>,
    /// The surface normal there, turned against the ray.
    pub normal: Vec3<T>,
    /// The ray parameter of the hit.
    pub t: T,
    /// Whether the ray struck the outer side of the surface.
    pub front_face: bool,
    /// What the surface is made of.
    pub material: &'a Material<T>,
}

impl<'a, T: Scalar> HitRecord<'a, T> {
    /// The ray runs against the outward normal.
    pub open spec fn faces_front(ray: Ray<T>, outward_normal: Vec3<T>) -> bool {
        lt(ray.direction.dot_spec(outward_normal), T::zero_spec())
    }

    pub open spec fn new_spec(
        p: Point3<T>,
        t: T,
        ray: Ray<T>,
        outward_normal: Vec3<T>,
        material: &'a Material<T>,
    ) -> Self {
        HitRecord {
            hit_location: p,
            normal: if Self::faces_front(ray, outward_normal) {
                outward_normal
            } else {
                outward_normal.negation()
            },
            t,
            front_face: Self::faces_front(ray, outward_normal),
            material,
        }
    }

    /// The record of a hit at `p`, with the normal turned to face the ray.
    pub fn new(
        p: Point3<T>,
        t: T,
        ray: &Ray<T>,
        outward_normal: Vec3<T>,
        material: &'a Material<T>,
    ) -> (r: Self)
        ensures
            r == Self::new_spec(p, t, *ray, outward_normal, material),
    {
        let front_face = less(ray.direction.dot(&outward_normal), T::zero());
        let normal = if front_face {
            outward_normal
        } else {
            outward_normal.negated()
        };
        HitRecord { hit_location: p, normal, t, front_face, material }
    }
}

} // verus!
