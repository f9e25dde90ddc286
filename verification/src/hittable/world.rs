//! Scenes: lists of shapes, tried one after the other.

use vstd::prelude::*;
use crate::hittable::bounding_box::BoundingBox;
use crate::hittable::hit_record::HitRecord;
use crate::hittable::hittable::Hittable;
use crate::hittable::interval::Interval;
use crate::ray::Ray;
use crate::hittable::bvh_node::is_closest;
use crate::scalar::Scalar;

verus! {

/// The part of `ray_t` that is still of interest once `found` is known:
/// nothing beyond the hit found so far.
pub open spec fn narrowed<T: Scalar>(ray_t: Interval<T>, found: Option<HitRecord<T>>) -> Interval<
    T,
> {
    Interval {
        min: ray_t.min,
        max: match found {
            Some(h) => h.t,
            None => ray_t.max,
        },
    }
}

/// The hit found among the first `n` shapes: each shape in turn is asked
/// about the range that ends at the closest hit so far, and its hit, if it
/// has one, becomes the closest.
pub open spec fn hit_among<'a, T: Scalar>(
    objects: &'a Vec<Hittable<T>>,
    ray: Ray<T>,
    ray_t: Interval<T>,
    n: int,
) -> Option<HitRecord<'a, T>>
    decreases n,
{
    if n <= 0 {
        None
    } else {
        let found = hit_among(objects, ray, ray_t, n - 1);
        match objects@[n - 1].hit_spec(ray, narrowed(ray_t, found)) {
            Some(h) => Some(h),
            None => found,
        }
    }
}

/// The closest hit in the scene within `ray_t`.
pub open spec fn hit_spec<'a, T: Scalar>(
    objects: &'a Vec<Hittable<T>>,
    ray: Ray<T>,
    ray_t: Interval<T>,
) -> Option<HitRecord<'a, T>> {
    hit_among(objects, ray, ray_t, objects@.len() as int)
}

/// The box around the first `n` shapes.
pub open spec fn box_among<T: Scalar>(objects: Seq<Hittable<T>>, n: int) -> BoundingBox<T>
    decreases n,
{
    if n <= 0 {
        BoundingBox::empty_spec()
    } else {
        BoundingBox::containing_spec(
            objects[n - 1].bounding_box_spec(),
            box_among(objects, n - 1),
        )
    }
}

/// The closest hit in the scene within `ray_t`.
pub fn hit<'a, T: Scalar>(objects: &'a Vec<Hittable<T>>, ray: &Ray<T>, ray_t: &Interval<T>) -> (r:
    Option<HitRecord<'a, T>>)
    ensures
        r == hit_spec(objects, *ray, *ray_t),
{
    let mut closest_so_far = ray_t.max;
    let mut found: Option<HitRecord<'a, T>> = None;
    let mut i: usize = 0;
    while i < objects.len()
        invariant
            i <= objects@.len(),
            found == hit_among(objects, *ray, *ray_t, i as int),
            closest_so_far == narrowed(*ray_t, found).max,
        decreases objects@.len() - i,
    {
        let range = Interval { min: ray_t.min, max: closest_so_far };
        match objects[i].hit(ray, &range) {
            Some(record) => {
                closest_so_far = record.t;
                found = Some(record);
            },
            None => {},
        }
        i += 1;
    }
    found
}

/// The box around the whole scene.
pub fn bounding_box<T: Scalar>(objects: &Vec<Hittable<T>>) -> (r: BoundingBox<T>)
    ensures
        r == box_among(objects@, objects@.len() as int),
{
    let mut bounds = BoundingBox::empty();
    let mut i: usize = 0;
    while i < objects.len()
        invariant
            i <= objects@.len(),
            bounds == box_among(objects@, i as int),
        decreases objects@.len() - i,
    {
        let b = objects[i].bounding_box();
        bounds = BoundingBox::containing(&b, &bounds);
        i += 1;
    }
    bounds
}

/// Whether `shape` is one of the first `n` shapes of a scene.
pub open spec fn occurs_before<T: Scalar>(objects: Seq<Hittable<T>>, n: int, shape: Hittable<T>) -> bool {
    exists|k: int| 0 <= k < n && #[trigger] objects[k] == shape
}

/// The ray parameter of the hit found among the first `n` shapes.
pub open spec fn time_among<T: Scalar>(
    objects: &Vec<Hittable<T>>,
    ray: Ray<T>,
    ray_t: Interval<T>,
    n: int,
) -> Option<T> {
    match hit_among(objects, ray, ray_t, n) {
        Some(h) => Some(h.t),
        None => None,
    }
}

/// The hit that a scan of the first `n` shapes reports is the closest among
/// them, provided the hit of each is steady.
pub proof fn scan_hit_is_closest<T: Scalar>(
    objects: &Vec<Hittable<T>>,
    ray: Ray<T>,
    ray_t: Interval<T>,
    n: int,
)
    requires
        0 <= n <= objects@.len(),
        ray_t.wf(),
        forall|k: int| 0 <= k < n ==> (#[trigger] objects@[k]).is_steady(ray, ray_t),
    ensures
        is_closest(
            |l: Hittable<T>| occurs_before(objects@, n, l),
            ray,
            ray_t,
            time_among(objects, ray, ray_t, n),
        ),
        match time_among(objects, ray, ray_t, n) {
            Some(t) => ray_t.min.le(t) && t.le(ray_t.max),
            None => true,
        },
    decreases n,
{
    let among = |l: Hittable<T>| occurs_before(objects@, n, l);
    if n == 0 {
        assert forall|l: Hittable<T>| among(l) implies (#[trigger] l.hit_time(ray, ray_t)).is_none() by {}
    } else {
        scan_hit_is_closest(objects, ray, ray_t, n - 1);
        let before = |l: Hittable<T>| occurs_before(objects@, n - 1, l);
        let found = hit_among(objects, ray, ray_t, n - 1);
        let f = time_among(objects, ray, ray_t, n - 1);
        let e = objects@[n - 1];
        T::le_numbers(ray_t.min, ray_t.max);
        T::le_total(ray_t.max, ray_t.max);
        let c = match f {
            Some(t) => t,
            None => ray_t.max,
        };
        assert(narrowed(ray_t, found) == ray_t.ending_at(c));
        assert(c.le(ray_t.max));
        let e_full = e.hit_time(ray, ray_t);
        let e_narrow = e.hit_time(ray, ray_t.ending_at(c));
        assert(e.is_steady(ray, ray_t));
        let r = time_among(objects, ray, ray_t, n);
        assert(r == if e_narrow.is_some() {
            e_narrow
        } else {
            f
        });
        assert(occurs_before(objects@, n, e));
        assert forall|l: Hittable<T>| #[trigger]
            occurs_before(objects@, n, l) implies occurs_before(objects@, n - 1, l) || l == e by {
            let k = choose|k: int| 0 <= k < n && #[trigger] objects@[k] == l;
            if k < n - 1 {
                assert(occurs_before(objects@, n - 1, l));
            }
        }
        assert forall|l: Hittable<T>| #[trigger]
            occurs_before(objects@, n - 1, l) implies occurs_before(objects@, n, l) by {
            let k = choose|k: int| 0 <= k < n - 1 && #[trigger] objects@[k] == l;
            assert(0 <= k < n && objects@[k] == l);
        }
        match e_narrow {
            Some(g) => {
                assert(e_full == Some(g) && g.le(c));
                T::le_numbers(g, c);
                T::le_total(g, g);
                assert forall|l: Hittable<T>| among(l) implies match #[trigger] l.hit_time(
                    ray,
                    ray_t,
                ) {
                    Some(h) => g.le(h),
                    None => true,
                } by {
                    if l != e {
                        if let Some(h) = l.hit_time(ray, ray_t) {
                            T::le_transitive(g, c, h);
                        }
                    }
                }
                assert(among(e) && e.hit_time(ray, ray_t) == Some(g));
            },
            None => {
                match f {
                    None => {
                        assert(e_full.is_none());
                        assert forall|l: Hittable<T>| among(l) implies (#[trigger] l.hit_time(
                            ray,
                            ray_t,
                        )).is_none() by {}
                    },
                    Some(t) => {
                        let w = choose|l: Hittable<T>|
                            before(l) && #[trigger] l.hit_time(ray, ray_t) == Some(t);
                        assert(among(w) && w.hit_time(ray, ray_t) == Some(t));
                        assert forall|l: Hittable<T>| among(l) implies match #[trigger] l.hit_time(
                            ray,
                            ray_t,
                        ) {
                            Some(h) => t.le(h),
                            None => true,
                        } by {
                            if l == e {
                                if let Some(g) = e_full {
                                    T::le_numbers(ray_t.min, g);
                                    T::le_total(t, g);
                                }
                            }
                        }
                    },
                }
            },
        }
    }
}

/// The box around the first `n` shapes of a scene covers the box of each of
/// them, provided each of those boxes is well formed and solid or empty.
pub proof fn scene_box_covers_shapes<T: Scalar>(objects: Seq<Hittable<T>>, n: int, k: int)
    requires
        0 <= k < n <= objects.len(),
        forall|m: int|
            0 <= m < n ==> {
                let b = (#[trigger] objects[m]).bounding_box_spec();
                b.wf() && (b.is_solid() || b.is_empty_spec())
            },
    ensures
        box_among(objects, n).covers(objects[k].bounding_box_spec()),
    decreases n,
{
    scene_box_has_shape(objects, n - 1);
    let own = objects[n - 1].bounding_box_spec();
    let before = box_among(objects, n - 1);
    BoundingBox::containing_covers(own, before);
    if k < n - 1 {
        scene_box_covers_shapes(objects, n - 1, k);
        BoundingBox::covers_is_transitive(
            box_among(objects, n),
            before,
            objects[k].bounding_box_spec(),
        );
    }
}

/// The box around the first `n` shapes of a scene is well formed and solid
/// or empty, provided the box of each of them is.
pub proof fn scene_box_has_shape<T: Scalar>(objects: Seq<Hittable<T>>, n: int)
    requires
        0 <= n <= objects.len(),
        forall|m: int|
            0 <= m < n ==> {
                let b = (#[trigger] objects[m]).bounding_box_spec();
                b.wf() && (b.is_solid() || b.is_empty_spec())
            },
    ensures
        box_among(objects, n).wf(),
        box_among(objects, n).is_solid() || box_among(objects, n).is_empty_spec(),
    decreases n,
{
    if n <= 0 {
        T::zero_is_number();
        Interval::<T>::new_is_ordered(T::zero_spec(), T::zero_spec());
    } else {
        scene_box_has_shape(objects, n - 1);
        let own = objects[n - 1].bounding_box_spec();
        let before = box_among(objects, n - 1);
        BoundingBox::containing_covers(own, before);
        BoundingBox::containing_keeps_shape(own, before);
    }
}

} // verus!
