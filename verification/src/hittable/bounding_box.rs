//! Axis-aligned boxes.

use vstd::prelude::*;
use crate::fixed::Fixed;
use crate::fixed::quotient_keeps_order;
use crate::fixed::quotient_turns_order;
use crate::ray::Ray;
use crate::scalar::Scalar;
use crate::vec3::Point3;
use super::interval::Interval;

verus! {

/// A box with its faces parallel to the coordinate planes: one range per axis.
#[derive(Debug, PartialEq)]
pub struct BoundingBox<T> {
    pub x: Interval<T>,
    pub y: Interval<T>,
    pub z: Interval<T>,
}

impl<T: Copy> Clone for BoundingBox<T> {
    fn clone(&self) -> (r: Self)
        ensures
            r == *self,
    {
        BoundingBox { x: self.x, y: self.y, z: self.z }
    }
}

impl<T: Copy> Copy for BoundingBox<T> {}

impl<T: Scalar> BoundingBox<T> {
    /// Each of the three ranges has its ends in order.
    pub open spec fn wf(self) -> bool {
        self.x.wf() && self.y.wf() && self.z.wf()
    }

    pub open spec fn new_spec(a: Point3<T>, b: Point3<T>) -> Self {
        BoundingBox {
            x: Interval::new_spec(a.0, b.0),
            y: Interval::new_spec(a.1, b.1),
            z: Interval::new_spec(a.2, b.2),
        }
    }

    pub open spec fn empty_spec() -> Self {
        BoundingBox {
            x: Interval::empty_spec(),
            y: Interval::empty_spec(),
            z: Interval::empty_spec(),
        }
    }

    /// Every axis of the box is the empty range.
    pub open spec fn is_empty_spec(self) -> bool {
        self.x.is_empty_spec() && self.y.is_empty_spec() && self.z.is_empty_spec()
    }

    /// No axis of the box is the empty range.
    pub open spec fn is_solid(self) -> bool {
        !self.x.is_empty_spec() && !self.y.is_empty_spec() && !self.z.is_empty_spec()
    }

    /// `self` reaches at least as far as `other` along every axis.
    pub open spec fn contains(self, other: Self) -> bool {
        self.x.contains(other.x) && self.y.contains(other.y) && self.z.contains(other.z)
    }

    /// `self` holds every point of `other`, which an empty `other` has none of.
    pub open spec fn covers(self, other: Self) -> bool {
        other.is_empty_spec() || self.contains(other)
    }

    /// The range of ray parameters at which a ray lies between the two planes
    /// that bound the box along one axis. A ray that runs parallel to the
    /// planes divides by zero here: the scalar's division decides what range
    /// that gives.
    pub open spec fn slab(axis: Interval<T>, origin: T, direction: T) -> Interval<T> {
        Interval::new_spec(
            axis.min.difference(origin).quotient(direction),
            axis.max.difference(origin).quotient(direction),
        )
    }

    /// The part of `ray_t` in which the ray is inside the box: `ray_t`
    /// narrowed by the three slabs in turn, and nothing as soon as one
    /// narrowing leaves no width. An empty box is never hit.
    pub open spec fn hit_spec(self, ray: Ray<T>, ray_t: Interval<T>) -> Option<Interval<T>> {
        if self.is_empty_spec() {
            None
        } else {
            match Interval::overlap_spec(ray_t, Self::slab(self.x, ray.origin.0, ray.direction.0)) {
                None => None,
                Some(tx) => match Interval::overlap_spec(
                    tx,
                    Self::slab(self.y, ray.origin.1, ray.direction.1),
                ) {
                    None => None,
                    Some(ty) => Interval::overlap_spec(
                        ty,
                        Self::slab(self.z, ray.origin.2, ray.direction.2),
                    ),
                },
            }
        }
    }

    pub open spec fn containing_spec(a: Self, b: Self) -> Self {
        BoundingBox {
            x: Interval::containing_spec(a.x, b.x),
            y: Interval::containing_spec(a.y, b.y),
            z: Interval::containing_spec(a.z, b.z),
        }
    }

    pub open spec fn volume_spec(self) -> T {
        self.x.max.difference(self.x.min).product(self.y.max.difference(self.y.min)).product(
            self.z.max.difference(self.z.min),
        )
    }

    /// The smallest box that holds two points.
    pub fn new(a: Point3<T>, b: Point3<T>) -> (r: Self)
        ensures
            r == Self::new_spec(a, b),
    {
        let x = Interval::new(a.x(), b.x());
        let y = Interval::new(a.y(), b.y());
        let z = Interval::new(a.z(), b.z());
        BoundingBox { x, y, z }
    }

    /// The box at the origin with no extent.
    pub fn empty() -> (r: Self)
        ensures
            r == Self::empty_spec(),
            r.wf(),
            r.is_empty_spec(),
    {
        BoundingBox { x: Interval::empty(), y: Interval::empty(), z: Interval::empty() }
    }

    pub fn is_empty(&self) -> (r: bool)
        ensures
            r == self.is_empty_spec(),
    {
        self.x.is_empty() && self.y.is_empty() && self.z.is_empty()
    }

    fn slab_of(axis: &Interval<T>, origin: T, direction: T) -> (r: Interval<T>)
        ensures
            r == Self::slab(*axis, origin, direction),
    {
        Interval::new(axis.min.minus(origin).over(direction), axis.max.minus(origin).over(direction))
    }

    /// Whether a ray passes through the box within `ray_t`, and if so the
    /// range of parameters at which it is inside.
    pub fn hit(&self, ray: &Ray<T>, ray_t: &Interval<T>) -> (r: Option<Interval<T>>)
        ensures
            r == self.hit_spec(*ray, *ray_t),
    {
        if self.is_empty() {
            return None;
        }
        let tx = match Interval::overlap(
            *ray_t,
            Self::slab_of(&self.x, ray.origin.x(), ray.direction.x()),
        ) {
            None => {
                return None;
            },
            Some(t) => t,
        };
        let ty = match Interval::overlap(
            tx,
            Self::slab_of(&self.y, ray.origin.y(), ray.direction.y()),
        ) {
            None => {
                return None;
            },
            Some(t) => t,
        };
        Interval::overlap(ty, Self::slab_of(&self.z, ray.origin.z(), ray.direction.z()))
    }

    /// The smallest box that covers two boxes, axis by axis.
    pub fn containing(aabb0: &Self, aabb1: &Self) -> (r: Self)
        ensures
            r == Self::containing_spec(*aabb0, *aabb1),
    {
        let x = Interval::containing(aabb0.x, aabb1.x);
        let y = Interval::containing(aabb0.y, aabb1.y);
        let z = Interval::containing(aabb0.z, aabb1.z);
        BoundingBox { x, y, z }
    }

    /// The product of the three extents.
    pub fn volume(&self) -> (r: T)
        ensures
            r == self.volume_spec(),
    {
        self.x.size().times(self.y.size()).times(self.z.size())
    }

    /// The box that contains two boxes is well formed and reaches as far as
    /// each of them along every axis on which that box has extent. So it
    /// covers each operand that is solid or empty.
    pub proof fn containing_covers(a: Self, b: Self)
        requires
            a.wf(),
            b.wf(),
        ensures
            Self::containing_spec(a, b).wf(),
            Self::containing_spec(a, b).x.covers(a.x),
            Self::containing_spec(a, b).y.covers(a.y),
            Self::containing_spec(a, b).z.covers(a.z),
            Self::containing_spec(a, b).x.covers(b.x),
            Self::containing_spec(a, b).y.covers(b.y),
            Self::containing_spec(a, b).z.covers(b.z),
            a.is_solid() || a.is_empty_spec() ==> Self::containing_spec(a, b).covers(a),
            b.is_solid() || b.is_empty_spec() ==> Self::containing_spec(a, b).covers(b),
    {
        Interval::containing_covers(a.x, b.x);
        Interval::containing_covers(a.y, b.y);
        Interval::containing_covers(a.z, b.z);
    }

    /// Containing a box together with an empty one gives the box back.
    pub proof fn containing_empty(a: Self, b: Self)
        requires
            b.is_empty_spec(),
        ensures
            Self::containing_spec(a, b) == a,
    {
    }

    /// The box that contains two boxes is solid or empty if each of them is.
    pub proof fn containing_keeps_shape(a: Self, b: Self)
        requires
            a.wf(),
            b.wf(),
            a.is_solid() || a.is_empty_spec(),
            b.is_solid() || b.is_empty_spec(),
        ensures
            Self::containing_spec(a, b).is_solid() || Self::containing_spec(a, b).is_empty_spec(),
    {
        Interval::containing_keeps_extent(a.x, b.x);
        Interval::containing_keeps_extent(a.y, b.y);
        Interval::containing_keeps_extent(a.z, b.z);
    }

    /// A box that covers a box that covers a third covers the third.
    pub proof fn covers_is_transitive(a: Self, b: Self, c: Self)
        requires
            b.wf(),
            c.wf(),
            a.covers(b),
            b.covers(c),
        ensures
            a.covers(c),
    {
        if !c.is_empty_spec() {
            // A box with extent does not fit into one without.
            if b.is_empty_spec() {
                Interval::nothing_fits_in_empty(b.x, c.x);
                Interval::nothing_fits_in_empty(b.y, c.y);
                Interval::nothing_fits_in_empty(b.z, c.z);
            }
            T::le_transitive(a.x.min, b.x.min, c.x.min);
            T::le_transitive(c.x.max, b.x.max, a.x.max);
            T::le_transitive(a.y.min, b.y.min, c.y.min);
            T::le_transitive(c.y.max, b.y.max, a.y.max);
            T::le_transitive(a.z.min, b.z.min, c.z.min);
            T::le_transitive(c.z.max, b.z.max, a.z.max);
        }
    }

    /// A ray that hits a box does so within the range it was asked about.
    pub proof fn hit_within(self, ray: Ray<T>, ray_t: Interval<T>)
        requires
            ray_t.wf(),
            Self::slab(self.x, ray.origin.0, ray.direction.0).wf(),
            Self::slab(self.y, ray.origin.1, ray.direction.1).wf(),
            Self::slab(self.z, ray.origin.2, ray.direction.2).wf(),
            self.hit_spec(ray, ray_t).is_some(),
        ensures
            ray_t.contains(self.hit_spec(ray, ray_t).unwrap()),
            self.hit_spec(ray, ray_t).unwrap().wf(),
    {
        let sx = Self::slab(self.x, ray.origin.0, ray.direction.0);
        let sy = Self::slab(self.y, ray.origin.1, ray.direction.1);
        let sz = Self::slab(self.z, ray.origin.2, ray.direction.2);
        let tx = Interval::overlap_spec(ray_t, sx).unwrap();
        Interval::overlap_within(ray_t, sx);
        let ty = Interval::overlap_spec(tx, sy).unwrap();
        Interval::overlap_within(tx, sy);
        let tz = Interval::overlap_spec(ty, sz).unwrap();
        Interval::overlap_within(ty, sz);
        T::le_transitive(ray_t.min, tx.min, ty.min);
        T::le_transitive(ray_t.min, ty.min, tz.min);
        T::le_transitive(ty.max, tx.max, ray_t.max);
        T::le_transitive(tz.max, ty.max, ray_t.max);
    }
}

/// In fixed-point numbers the range of ray parameters between the planes of
/// a wider range holds that of a narrower one.
pub proof fn fixed_point_slab_is_monotone(
    inner: Interval<Fixed>,
    outer: Interval<Fixed>,
    origin: Fixed,
    direction: Fixed,
)
    requires
        inner.wf(),
        outer.contains(inner),
    ensures
        BoundingBox::slab(outer, origin, direction).contains(
            BoundingBox::slab(inner, origin, direction),
        ),
        BoundingBox::slab(inner, origin, direction).wf(),
{
    let i1 = inner.min.difference(origin);
    let i2 = inner.max.difference(origin);
    let o1 = outer.min.difference(origin);
    let o2 = outer.max.difference(origin);
    if direction.raw >= 0 {
        quotient_keeps_order(o1, i1, direction);
        quotient_keeps_order(i1, i2, direction);
        quotient_keeps_order(i2, o2, direction);
    } else {
        quotient_turns_order(o1, i1, direction);
        quotient_turns_order(i1, i2, direction);
        quotient_turns_order(i2, o2, direction);
    }
}

/// In fixed-point numbers a ray that passes through a box within `ray_t`
/// passes through every box that contains it.
pub proof fn fixed_point_box_hit_is_monotone(
    inner: BoundingBox<Fixed>,
    outer: BoundingBox<Fixed>,
    ray: Ray<Fixed>,
    ray_t: Interval<Fixed>,
)
    requires
        inner.wf(),
        outer.contains(inner),
        inner.hit_spec(ray, ray_t).is_some(),
    ensures
        outer.hit_spec(ray, ray_t).is_some(),
{
    if outer.is_empty_spec() {
        Interval::nothing_fits_in_empty(outer.x, inner.x);
        Interval::nothing_fits_in_empty(outer.y, inner.y);
        Interval::nothing_fits_in_empty(outer.z, inner.z);
    }
    fixed_point_slab_is_monotone(inner.x, outer.x, ray.origin.0, ray.direction.0);
    fixed_point_slab_is_monotone(inner.y, outer.y, ray.origin.1, ray.direction.1);
    fixed_point_slab_is_monotone(inner.z, outer.z, ray.origin.2, ray.direction.2);
}

} // verus!
