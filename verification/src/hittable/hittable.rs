//! The shapes, as one closed family, and scenes as lists of them.

use vstd::prelude::*;
use crate::hittable::bounding_box::BoundingBox;
use crate::hittable::bvh_node::BvhNode;
use crate::hittable::hit_record::HitRecord;
use crate::hittable::hittables::disk::Disk;
use crate::hittable::hittables::not_hittable::NotHittable;
use crate::hittable::hittables::plane::Plane;
use crate::hittable::hittables::sphere::Sphere;
use crate::hittable::interval::Interval;
use crate::ray::Ray;
use crate::scalar::Scalar;

verus! {

/// Anything a ray can strike.
pub enum Hittable<T> {
    Sphere(Sphere<T>),
    Disk(Disk<T>),
    Plane(Plane<T>),
    NotHittable(NotHittable),
    BvhNode(Box<BvhNode<T>>),
}

impl<T: Scalar> Hittable<T> {
    /// The closest hit within `ray_t`, if there is one.
    pub open spec fn hit_spec<'a>(&'a self, ray: Ray<T>, ray_t: Interval<T>) -> Option<
        HitRecord<'a, T>,
    >
        decreases self,
    {
        match self {
            Hittable::Sphere(s) => s.hit_spec(ray, ray_t),
            Hittable::Disk(d) => d.hit_spec(ray, ray_t),
            Hittable::Plane(p) => p.hit_spec(ray, ray_t),
            Hittable::NotHittable(_) => None,
            Hittable::BvhNode(n) => n.hit_spec(ray, ray_t),
        }
    }

    /// A box outside of which the shape is never hit.
    pub open spec fn bounding_box_spec(&self) -> BoundingBox<T>
        decreases self,
    {
        match self {
            Hittable::Sphere(s) => s.bounding_box_spec(),
            Hittable::Disk(d) => d.bounding_box_spec(),
            Hittable::Plane(p) => p.bounding_box_spec(),
            Hittable::NotHittable(_) => BoundingBox::empty_spec(),
            Hittable::BvhNode(n) => n.bounding_box_spec(),
        }
    }

    /// The ray parameter of the closest hit within `ray_t`.
    pub open spec fn hit_time(&self, ray: Ray<T>, ray_t: Interval<T>) -> Option<T> {
        match self.hit_spec(ray, ray_t) {
            Some(h) => Some(h.t),
            None => None,
        }
    }

    /// Whether `leaf` is one of the shapes at the tips of this tree. A shape
    /// is its own and only tip; what is not there has none.
    pub open spec fn has_leaf(&self, leaf: Hittable<T>) -> bool
        decreases self,
    {
        match self {
            Hittable::BvhNode(n) => n.has_leaf(leaf),
            Hittable::NotHittable(_) => false,
            _ => *self == leaf,
        }
    }

    /// Whether no box in this tree keeps the ray from a shape below it that
    /// the ray would hit within `ray_t`.
    pub open spec fn never_cut_off(&self, ray: Ray<T>, ray_t: Interval<T>) -> bool
        decreases self,
    {
        match self {
            Hittable::BvhNode(n) => n.never_cut_off(ray, ray_t),
            _ => true,
        }
    }

    /// Whether the boxes of this tree are in order: the box of every shape
    /// at a tip is well formed and solid or empty, and the box of every node
    /// is the one that contains the boxes of its two children.
    pub open spec fn is_boxed(&self) -> bool
        decreases self,
    {
        match self {
            Hittable::BvhNode(n) => n.is_boxed(),
            _ => {
                let b = self.bounding_box_spec();
                b.wf() && (b.is_solid() || b.is_empty_spec())
            },
        }
    }

    /// Whether a ray that hits this within `ray_t` also passes through its
    /// box within `ray_t`.
    pub open spec fn is_within_its_box(&self, ray: Ray<T>, ray_t: Interval<T>) -> bool {
        self.hit_spec(ray, ray_t).is_some() ==> self.bounding_box_spec().hit_spec(
            ray,
            ray_t,
        ).is_some()
    }

    /// Whether the hit of this shape within `ray_t` is a number inside
    /// `ray_t`, and stays what it is however the far end of `ray_t` is drawn
    /// in: still found while the far end lies at or beyond it, and nothing
    /// once the far end lies before it.
    pub open spec fn is_steady(&self, ray: Ray<T>, ray_t: Interval<T>) -> bool {
        match self.hit_time(ray, ray_t) {
            None => forall|c: T|
                c.le(ray_t.max) ==> (#[trigger] self.hit_time(
                    ray,
                    ray_t.ending_at(c),
                )).is_none(),
            Some(t) => {
                &&& ray_t.min.le(t)
                &&& t.le(ray_t.max)
                &&& forall|c: T|
                    c.le(ray_t.max) ==> #[trigger] self.hit_time(ray, ray_t.ending_at(c)) == if t.le(
                        c,
                    ) {
                        Some(t)
                    } else {
                        None
                    }
            },
        }
    }

    pub fn hit<'a>(&'a self, ray: &Ray<T>, ray_t: &Interval<T>) -> (r: Option<HitRecord<'a, T>>)
        ensures
            r == self.hit_spec(*ray, *ray_t),
        decreases self,
    {
        match self {
            Hittable::Sphere(s) => s.hit(ray, ray_t),
            Hittable::Disk(d) => d.hit(ray, ray_t),
            Hittable::Plane(p) => p.hit(ray, ray_t),
            Hittable::NotHittable(n) => n.hit(ray, ray_t),
            Hittable::BvhNode(n) => n.hit(ray, ray_t),
        }
    }

    pub fn bounding_box(&self) -> (r: BoundingBox<T>)
        ensures
            r == self.bounding_box_spec(),
        decreases self,
    {
        match self {
            Hittable::Sphere(s) => s.bounding_box(),
            Hittable::Disk(d) => d.bounding_box(),
            Hittable::Plane(p) => p.bounding_box(),
            Hittable::NotHittable(n) => n.bounding_box(),
            Hittable::BvhNode(n) => n.bounding_box(),
        }
    }
}

} // verus!
