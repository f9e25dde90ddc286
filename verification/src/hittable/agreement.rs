//! The tree of boxes and the plain scan find the same closest hit.
//!
//! This is so where two things hold that the arithmetic of the scalars has
//! to provide, and that are stated here as conditions: the hit of each shape
//! is steady, and no box of the tree keeps the ray from a shape that the ray
//! would hit. The first is shown below for each kind of shape from a
//! condition on the ray parameters at which the ray crosses it.
//!
//! In fixed-point numbers both are taken further. Every shape is steady. And
//! for the trees that `BvhNode::create` builds, no box keeps the ray from a
//! shape as soon as each shape that is hit has its own box passed through:
//! what is left to the arithmetic is a condition on each shape by itself.

use vstd::prelude::*;
use crate::fixed::Fixed;
use crate::fixed::quotient_keeps_order;
use crate::fixed::root_is_not_negative;
use crate::fixed::square_is_not_negative;
use crate::hittable::bvh_node::BvhNode;
use crate::hittable::bvh_node::closest_is_unique;
use crate::hittable::bvh_node::fixed_point_tree_never_cuts_off;
use crate::hittable::bvh_node::tree_is_boxed;
use crate::hittable::bvh_node::holds;
use crate::hittable::bvh_node::list_has_leaf;
use crate::hittable::bvh_node::tree_hit_is_closest;
use crate::hittable::bvh_node::tree_keeps_leaves;
use crate::hittable::hittable::Hittable;
use crate::hittable::hittables::disk::Disk;
use crate::hittable::hittables::plane::Plane;
use crate::hittable::hittables::plane::plane_parameter;
use crate::hittable::hittables::plane::plane_time;
use crate::hittable::hittables::plane::parallel_threshold;
use crate::hittable::hittables::sphere::Sphere;
use crate::hittable::interval::Interval;
use crate::hittable::world;
use crate::hittable::world::occurs_before;
use crate::hittable::world::scan_hit_is_closest;
use crate::ray::Ray;
use crate::scalar::Scalar;
use crate::scalar::lt;
use crate::scalar::same;

verus! {

/// A number that a range admits lies between its ends; and a range whose far
/// end has been drawn in to `c` admits the number if and only if the range
/// did and the number lies at or before `c`.
pub proof fn drawn_in_range_admits<T: Scalar>(ray_t: Interval<T>, t: T, c: T)
    requires
        ray_t.wf(),
        t.is_number(),
        c.le(ray_t.max),
    ensures
        !ray_t.excludes(t) ==> ray_t.min.le(t) && t.le(ray_t.max),
        ray_t.ending_at(c).excludes(t) == (ray_t.excludes(t) || !t.le(c)),
{
    T::le_numbers(ray_t.min, ray_t.max);
    T::le_numbers(c, ray_t.max);
    T::le_total(t, ray_t.min);
    T::le_total(t, ray_t.max);
    T::le_total(t, c);
    if lt(ray_t.max, t) {
        T::le_transitive(c, ray_t.max, t);
        if t.le(c) {
            T::le_transitive(t, c, ray_t.max);
        }
    }
}

/// The ray parameter at which a ray crosses a plane is a number, unless the
/// ray runs along the plane.
pub open spec fn crossing_is_number<T: Scalar>(
    center: crate::vec3::Point3<T>,
    normal: crate::vec3::Vec3<T>,
    ray: Ray<T>,
) -> bool {
    lt(normal.dot_spec(ray.direction).absolute(), parallel_threshold::<T>()) || plane_time(
        center,
        normal,
        ray,
    ).is_number()
}

/// The two ray parameters at which a ray crosses a sphere are in order,
/// unless the ray passes the sphere by.
pub open spec fn crossings_in_order<T: Scalar>(sphere: Sphere<T>, ray: Ray<T>) -> bool {
    lt(sphere.discriminant(ray), T::zero_spec()) || sphere.near_root(ray).le(sphere.far_root(ray))
}

/// The hit of a plane is steady.
pub proof fn plane_is_steady<T: Scalar>(plane: Plane<T>, ray: Ray<T>, ray_t: Interval<T>)
    requires
        ray_t.wf(),
        crossing_is_number(plane.center, plane.normal, ray),
    ensures
        Hittable::Plane(plane).is_steady(ray, ray_t),
{
    let shape = Hittable::Plane(plane);
    let t = plane_time(plane.center, plane.normal, ray);
    assert forall|c: T| c.le(ray_t.max) implies #[trigger] shape.hit_time(ray, ray_t.ending_at(c))
        == plane_parameter(plane.center, plane.normal, ray, ray_t.ending_at(c)) by {}
    assert(shape.hit_time(ray, ray_t) == plane_parameter(plane.center, plane.normal, ray, ray_t));
    if !lt(plane.normal.dot_spec(ray.direction).absolute(), parallel_threshold::<T>()) {
        T::le_numbers(ray_t.min, ray_t.max);
        T::le_total(ray_t.max, ray_t.max);
        drawn_in_range_admits(ray_t, t, ray_t.max);
        assert forall|c: T| c.le(ray_t.max) implies #[trigger] plane_parameter(
            plane.center,
            plane.normal,
            ray,
            ray_t.ending_at(c),
        ) == match plane_parameter(plane.center, plane.normal, ray, ray_t) {
            None => None,
            Some(t) => if t.le(c) {
                Some(t)
            } else {
                None
            },
        } by {
            drawn_in_range_admits(ray_t, t, c);
        }
    }
}

/// The hit of a disk is steady.
pub proof fn disk_is_steady<T: Scalar>(disk: Disk<T>, ray: Ray<T>, ray_t: Interval<T>)
    requires
        ray_t.wf(),
        crossing_is_number(disk.center, disk.normal, ray),
    ensures
        Hittable::Disk(disk).is_steady(ray, ray_t),
{
    let shape = Hittable::Disk(disk);
    let t = plane_time(disk.center, disk.normal, ray);
    assert forall|c: T| c.le(ray_t.max) implies #[trigger] shape.hit_time(ray, ray_t.ending_at(c))
        == disk.hit_parameter(ray, ray_t.ending_at(c)) by {}
    assert(shape.hit_time(ray, ray_t) == disk.hit_parameter(ray, ray_t));
    if !lt(disk.normal.dot_spec(ray.direction).absolute(), parallel_threshold::<T>()) {
        T::le_numbers(ray_t.min, ray_t.max);
        T::le_total(ray_t.max, ray_t.max);
        drawn_in_range_admits(ray_t, t, ray_t.max);
        assert forall|c: T| c.le(ray_t.max) implies #[trigger] disk.hit_parameter(
            ray,
            ray_t.ending_at(c),
        ) == match disk.hit_parameter(ray, ray_t) {
            None => None,
            Some(t) => if t.le(c) {
                Some(t)
            } else {
                None
            },
        } by {
            drawn_in_range_admits(ray_t, t, c);
        }
    }
}

/// The hit of a sphere is steady.
pub proof fn sphere_is_steady<T: Scalar>(sphere: Sphere<T>, ray: Ray<T>, ray_t: Interval<T>)
    requires
        ray_t.wf(),
        crossings_in_order(sphere, ray),
    ensures
        Hittable::Sphere(sphere).is_steady(ray, ray_t),
{
    let shape = Hittable::Sphere(sphere);
    let near = sphere.near_root(ray);
    let far = sphere.far_root(ray);
    assert forall|c: T| c.le(ray_t.max) implies #[trigger] shape.hit_time(ray, ray_t.ending_at(c))
        == sphere.hit_parameter(ray, ray_t.ending_at(c)) by {}
    assert(shape.hit_time(ray, ray_t) == sphere.hit_parameter(ray, ray_t));
    if !lt(sphere.discriminant(ray), T::zero_spec()) {
        T::le_numbers(near, far);
        T::le_numbers(ray_t.min, ray_t.max);
        T::le_total(ray_t.max, ray_t.max);
        drawn_in_range_admits(ray_t, near, ray_t.max);
        drawn_in_range_admits(ray_t, far, ray_t.max);
        assert forall|c: T| c.le(ray_t.max) implies #[trigger] sphere.hit_parameter(
            ray,
            ray_t.ending_at(c),
        ) == match sphere.hit_parameter(ray, ray_t) {
            None => None,
            Some(t) => if t.le(c) {
                Some(t)
            } else {
                None
            },
        } by {
            drawn_in_range_admits(ray_t, near, c);
            drawn_in_range_admits(ray_t, far, c);
            if far.le(c) {
                T::le_transitive(near, far, c);
            }
        }
    }
}

/// The tree over a scene of shapes and the plain scan of the scene agree on
/// whether a ray hits anything within `ray_t`, and on how far away the
/// closest hit lies, provided that the hit of each shape is steady and that
/// no box of the tree keeps the ray from a shape that it would hit.
pub proof fn tree_agrees_with_scan<T: Scalar>(
    tree: BvhNode<T>,
    objects: &Vec<Hittable<T>>,
    ray: Ray<T>,
    ray_t: Interval<T>,
)
    requires
        tree.is_tree_of(objects@),
        ray_t.wf(),
        forall|k: int|
            0 <= k < objects@.len() ==> {
                &&& ((#[trigger] objects@[k]) is Sphere || objects@[k] is Disk
                    || objects@[k] is Plane)
                &&& objects@[k].is_steady(ray, ray_t)
            },
        tree.never_cut_off(ray, ray_t),
    ensures
        tree.hit_time(ray, ray_t).is_some() == world::hit_spec(objects, ray, ray_t).is_some(),
        tree.hit_time(ray, ray_t).is_some() ==> same(
            tree.hit_time(ray, ray_t).unwrap(),
            world::hit_spec(objects, ray, ray_t).unwrap().t,
        ),
{
    let n = objects@.len() as int;
    let as_shape = Hittable::BvhNode(Box::new(tree));
    let in_tree = |l: Hittable<T>| as_shape.has_leaf(l);
    let in_scene = |l: Hittable<T>| occurs_before(objects@, n, l);
    assert forall|l: Hittable<T>| #[trigger] holds(in_tree, l) == holds(in_scene, l) by {
        tree_keeps_leaves(tree, objects@, l);
        if list_has_leaf(objects@, l) {
            let k = choose|k: int| 0 <= k < objects@.len() && (#[trigger] objects@[k]).has_leaf(l);
            assert(objects@[k] == l);
        }
        if occurs_before(objects@, n, l) {
            let k = choose|k: int| 0 <= k < n && #[trigger] objects@[k] == l;
            assert(objects@[k].has_leaf(l));
        }
    }
    assert forall|l: Hittable<T>| as_shape.has_leaf(l) implies match #[trigger] l.hit_time(
        ray,
        ray_t,
    ) {
        Some(g) => g.is_number(),
        None => true,
    } by {
        assert(holds(in_tree, l) == holds(in_scene, l));
        let k = choose|k: int| 0 <= k < n && #[trigger] objects@[k] == l;
        assert(objects@[k].is_steady(ray, ray_t));
        if let Some(g) = l.hit_time(ray, ray_t) {
            T::le_numbers(ray_t.min, g);
        }
    }
    tree_hit_is_closest(as_shape, ray, ray_t);
    scan_hit_is_closest(objects, ray, ray_t, n);
    closest_is_unique(
        in_tree,
        in_scene,
        ray,
        ray_t,
        as_shape.hit_time(ray, ray_t),
        world::time_among(objects, ray, ray_t, n),
    );
}

/// In fixed-point numbers the two ray parameters at which a ray crosses a
/// sphere are always in order.
pub proof fn fixed_point_crossings_are_in_order(sphere: Sphere<Fixed>, ray: Ray<Fixed>)
    ensures
        crossings_in_order(sphere, ray),
{
    let d = ray.direction;
    let a = d.length_squared_spec();
    let half_b = ray.origin.difference(sphere.center).dot_spec(d);
    let root = sphere.discriminant(ray).square_root();
    square_is_not_negative(d.0);
    square_is_not_negative(d.1);
    square_is_not_negative(d.2);
    assert(0 <= a.raw);
    root_is_not_negative(sphere.discriminant(ray));
    quotient_keeps_order(half_b.negation().difference(root), half_b.negation().sum(root), a);
}

/// In fixed-point numbers the hit of every sphere, disk and plane is steady.
pub proof fn fixed_point_shapes_are_steady(shape: Hittable<Fixed>, ray: Ray<Fixed>, ray_t: Interval<Fixed>)
    requires
        ray_t.wf(),
        shape is Sphere || shape is Disk || shape is Plane,
    ensures
        shape.is_steady(ray, ray_t),
{
    match shape {
        Hittable::Sphere(s) => {
            fixed_point_crossings_are_in_order(s, ray);
            sphere_is_steady(s, ray, ray_t);
        },
        Hittable::Disk(d) => {
            disk_is_steady(d, ray, ray_t);
        },
        Hittable::Plane(p) => {
            plane_is_steady(p, ray, ray_t);
        },
        _ => {},
    }
}

/// In fixed-point numbers the tree over a scene of spheres, disks and planes
/// and the plain scan of the scene report the same ray parameter, or both
/// nothing, provided that no box of the tree keeps the ray from a shape that
/// it would hit.
pub proof fn fixed_point_tree_agrees_with_scan(
    tree: BvhNode<Fixed>,
    objects: &Vec<Hittable<Fixed>>,
    ray: Ray<Fixed>,
    ray_t: Interval<Fixed>,
)
    requires
        tree.is_tree_of(objects@),
        ray_t.wf(),
        forall|k: int|
            0 <= k < objects@.len() ==> ((#[trigger] objects@[k]) is Sphere || objects@[k] is Disk
                || objects@[k] is Plane),
        tree.never_cut_off(ray, ray_t),
    ensures
        tree.hit_time(ray, ray_t) == world::time_among(objects, ray, ray_t, objects@.len() as int),
{
    assert forall|k: int| 0 <= k < objects@.len() implies (#[trigger] objects@[k]).is_steady(
        ray,
        ray_t,
    ) by {
        fixed_point_shapes_are_steady(objects@[k], ray, ray_t);
    }
    tree_agrees_with_scan(tree, objects, ray, ray_t);
}

/// In fixed-point numbers the box of a sphere or disk with a radius above
/// zero, and that of every plane, is well formed and solid.
pub proof fn fixed_point_shape_is_boxed(shape: Hittable<Fixed>)
    requires
        shape matches Hittable::Sphere(s) ==> s.radius.raw > 0,
        shape matches Hittable::Disk(d) ==> d.radius.raw > 0,
        shape is Sphere || shape is Disk || shape is Plane,
    ensures
        shape.is_boxed(),
        shape.bounding_box_spec().is_solid(),
{
}

/// In fixed-point numbers the tree that `create` builds over a scene of
/// spheres, disks and planes and the plain scan of the scene report the same
/// ray parameter, or both nothing, provided that the box of each shape is
/// well formed and solid or empty, and that each shape the ray hits within
/// `ray_t` has its own box passed through within `ray_t`.
pub proof fn fixed_point_built_tree_agrees_with_scan(
    tree: BvhNode<Fixed>,
    objects: &Vec<Hittable<Fixed>>,
    ray: Ray<Fixed>,
    ray_t: Interval<Fixed>,
)
    requires
        tree.is_tree_of(objects@),
        ray_t.wf(),
        forall|k: int|
            0 <= k < objects@.len() ==> {
                &&& ((#[trigger] objects@[k]) is Sphere || objects@[k] is Disk
                    || objects@[k] is Plane)
                &&& objects@[k].is_boxed()
                &&& objects@[k].is_within_its_box(ray, ray_t)
            },
    ensures
        tree.hit_time(ray, ray_t) == world::time_among(objects, ray, ray_t, objects@.len() as int),
{
    let as_shape = Hittable::BvhNode(Box::new(tree));
    tree_is_boxed(tree, objects@);
    assert forall|l: Hittable<Fixed>| as_shape.has_leaf(l) implies #[trigger] l.is_within_its_box(
        ray,
        ray_t,
    ) by {
        tree_keeps_leaves(tree, objects@, l);
        let k = choose|k: int| 0 <= k < objects@.len() && (#[trigger] objects@[k]).has_leaf(l);
        assert(objects@[k] == l);
    }
    fixed_point_tree_never_cuts_off(as_shape, ray, ray_t);
    fixed_point_tree_agrees_with_scan(tree, objects, ray, ray_t);
}

} // verus!
