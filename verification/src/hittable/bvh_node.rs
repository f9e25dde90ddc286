//! A tree of boxes over a scene, so that a ray need not be tried against
//! every shape.

use vstd::prelude::*;
use crate::fixed::Fixed;
use crate::hittable::bounding_box::BoundingBox;
use crate::hittable::bounding_box::fixed_point_box_hit_is_monotone;
use crate::hittable::hit_record::HitRecord;
use crate::hittable::hittable::Hittable;
use crate::hittable::hittables::not_hittable::NotHittable;
use crate::hittable::interval::Interval;
use crate::ray::Ray;
use crate::scalar::Scalar;
use crate::scalar::lt;
use crate::scalar::less;
use crate::scalar::same;

verus! {

/// The pairs `(i, i + 1), .., (i, n - 1)`.
pub open spec fn pairs_with_first(i: int, n: int) -> Seq<(int, int)> {
    Seq::new((n - 1 - i) as nat, |k: int| (i, i + 1 + k))
}

/// The pairs `(i, j)` with `first <= i < j < n`, those with the smaller `i`
/// first, and among them those with the smaller `j`.
pub open spec fn pairs_from(first: int, n: int) -> Seq<(int, int)>
    decreases n - first,
{
    if first + 1 >= n {
        Seq::empty()
    } else {
        pairs_with_first(first, n) + pairs_from(first + 1, n)
    }
}

/// All pairs of distinct positions in a list of `n` items, in the order in
/// which `itertools::Itertools::tuple_combinations` pairs up the items of the
/// range `0..n`: each position with every later one, the earlier first
/// positions first.
#[verifier::external_body]
fn index_pairs(n: usize) -> (r: Vec<(usize, usize)>)
    ensures
        r@.map_values(|p: (usize, usize)| (p.0 as int, p.1 as int)) == pairs_from(0, n as int),
{
    itertools::Itertools::tuple_combinations(0..n).collect()
}

/// Every pair in the list names two positions of the list, the smaller first.
pub proof fn pairs_in_range(first: int, n: int, k: int)
    requires
        0 <= first,
        0 <= k < pairs_from(first, n).len(),
    ensures
        first <= pairs_from(first, n)[k].0 < pairs_from(first, n)[k].1 < n,
    decreases n - first,
{
    if first + 1 < n {
        if k >= pairs_with_first(first, n).len() {
            pairs_in_range(first + 1, n, k - pairs_with_first(first, n).len());
        }
    }
}

/// A list of at least two items has a pair.
pub proof fn pairs_nonempty(n: int)
    requires
        2 <= n,
    ensures
        pairs_from(0, n).len() > 0,
{
}

/// An inner node of the tree: two children and a box around both.
pub struct BvhNode<T> {
    left: Hittable<T>,
    right: Hittable<T>,
    bounding_box: BoundingBox<T>,
}

impl<T: Scalar> BvhNode<T> {
    /// The child whose box has the smaller volume.
    pub closed spec fn left(&self) -> Hittable<T> {
        self.left
    }

    /// The child whose box has the larger volume.
    pub closed spec fn right(&self) -> Hittable<T> {
        self.right
    }

    /// The box around both children.
    pub closed spec fn bounding_box_spec(&self) -> BoundingBox<T> {
        self.bounding_box
    }

    /// The node over two shapes: the one whose box has the smaller volume
    /// goes left, and the box is the one that contains both boxes.
    pub open spec fn is_node_of(&self, a: Hittable<T>, b: Hittable<T>) -> bool {
        &&& self.bounding_box_spec() == BoundingBox::containing_spec(
            a.bounding_box_spec(),
            b.bounding_box_spec(),
        )
        &&& if a.bounding_box_spec().volume_spec().le(b.bounding_box_spec().volume_spec()) {
            self.left() == a && self.right() == b
        } else {
            self.left() == b && self.right() == a
        }
    }

    /// The volume of the box that would contain items `p.0` and `p.1`.
    pub open spec fn joint_volume(objects: Seq<Hittable<T>>, p: (int, int)) -> T {
        BoundingBox::containing_spec(
            objects[p.0].bounding_box_spec(),
            objects[p.1].bounding_box_spec(),
        ).volume_spec()
    }

    /// The pair chosen among the first `k` of `pairs`: an earlier pair is
    /// kept only while its joint volume is strictly below that of each pair
    /// that comes after it.
    pub open spec fn closest_among(
        objects: Seq<Hittable<T>>,
        pairs: Seq<(int, int)>,
        k: int,
    ) -> (int, int)
        decreases k,
    {
        if k <= 1 {
            pairs[0]
        } else {
            let kept = Self::closest_among(objects, pairs, k - 1);
            if lt(Self::joint_volume(objects, kept), Self::joint_volume(objects, pairs[k - 1])) {
                kept
            } else {
                pairs[k - 1]
            }
        }
    }

    /// The pair of shapes to join next: the one with the smallest joint
    /// volume.
    pub open spec fn closest_pair_spec(objects: Seq<Hittable<T>>) -> (int, int) {
        let pairs = pairs_from(0, objects.len() as int);
        Self::closest_among(objects, pairs, pairs.len() as int)
    }

    /// Whether `next` is `objects` after its closest pair has been taken out
    /// and a node over the two has been put at the end.
    pub open spec fn is_merge_of(objects: Seq<Hittable<T>>, next: Seq<Hittable<T>>) -> bool {
        let p = Self::closest_pair_spec(objects);
        &&& next.len() == objects.len() - 1
        &&& next.drop_last() == objects.remove(p.1).remove(p.0)
        &&& next.last() is BvhNode
        &&& next.last()->BvhNode_0.is_node_of(objects[p.0], objects[p.1])
    }

    /// Whether `rest` is what is left of `objects` after closest pairs have
    /// been joined until fewer than two shapes remain.
    pub open spec fn is_reduction_of(objects: Seq<Hittable<T>>, rest: Seq<Hittable<T>>) -> bool
        decreases objects.len(),
    {
        if objects.len() < 2 {
            rest == objects
        } else {
            exists|next: Seq<Hittable<T>>|
                (#[trigger] Self::is_merge_of(objects, next)) && Self::is_reduction_of(next, rest)
        }
    }

    /// Whether `self` is the tree over `objects`: a root whose one child is
    /// missing and whose other child is what the joining of closest pairs
    /// leaves, or is missing too where there are no shapes.
    pub open spec fn is_tree_of(&self, objects: Seq<Hittable<T>>) -> bool {
        exists|rest: Seq<Hittable<T>>|
            (#[trigger] Self::is_reduction_of(objects, rest)) && rest.len() <= 1 && self.is_node_of(
                Hittable::NotHittable(NotHittable),
                if rest.len() == 0 {
                    Hittable::NotHittable(NotHittable)
                } else {
                    rest[0]
                },
            )
    }

    /// The closest hit of the two children, provided the ray passes through
    /// the box within `ray_t`. Both children are asked about all of `ray_t`;
    /// where both are hit equally far away, the right one counts.
    pub open spec fn hit_spec<'a>(&'a self, ray: Ray<T>, ray_t: Interval<T>) -> Option<
        HitRecord<'a, T>,
    >
        decreases self,
    {
        if self.bounding_box_spec().hit_spec(ray, ray_t).is_none() {
            None
        } else {
            match (self.left().hit_spec(ray, ray_t), self.right().hit_spec(ray, ray_t)) {
                (Some(a), None) => Some(a),
                (None, Some(b)) => Some(b),
                (Some(a), Some(b)) => if lt(a.t, b.t) {
                    Some(a)
                } else {
                    Some(b)
                },
                (None, None) => None,
            }
        }
    }

    /// Whether `leaf` is one of the shapes at the tips of the tree below
    /// this node.
    pub open spec fn has_leaf(&self, leaf: Hittable<T>) -> bool
        decreases self,
    {
        self.left().has_leaf(leaf) || self.right().has_leaf(leaf)
    }

    /// Whether no box at or below this node keeps the ray from a shape below
    /// it that the ray would hit within `ray_t`.
    pub open spec fn never_cut_off(&self, ray: Ray<T>, ray_t: Interval<T>) -> bool
        decreases self,
    {
        &&& self.left().hit_spec(ray, ray_t).is_some() || self.right().hit_spec(ray, ray_t).is_some()
            ==> self.bounding_box_spec().hit_spec(ray, ray_t).is_some()
        &&& self.left().never_cut_off(ray, ray_t)
        &&& self.right().never_cut_off(ray, ray_t)
    }

    /// Whether the boxes at and below this node are in order: the box of the
    /// node is the one that contains the boxes of its two children, taken in
    /// either order, and the boxes below are in order.
    pub open spec fn is_boxed(&self) -> bool
        decreases self,
    {
        let l = self.left().bounding_box_spec();
        let r = self.right().bounding_box_spec();
        &&& self.bounding_box_spec() == BoundingBox::containing_spec(l, r)
            || self.bounding_box_spec() == BoundingBox::containing_spec(r, l)
        &&& self.left().is_boxed()
        &&& self.right().is_boxed()
    }

    /// The ray parameter of the closest hit below this node within `ray_t`.
    pub open spec fn hit_time(&self, ray: Ray<T>, ray_t: Interval<T>) -> Option<T> {
        match self.hit_spec(ray, ray_t) {
            Some(h) => Some(h.t),
            None => None,
        }
    }

    /// The node over two shapes.
    pub fn new(a: Hittable<T>, b: Hittable<T>) -> (r: Self)
        ensures
            r.is_node_of(a, b),
    {
        let a_bb = a.bounding_box();
        let b_bb = b.bounding_box();
        let bounding_box = BoundingBox::containing(&a_bb, &b_bb);
        if a_bb.volume().at_most(b_bb.volume()) {
            BvhNode { left: a, right: b, bounding_box }
        } else {
            BvhNode { left: b, right: a, bounding_box }
        }
    }

    pub fn into(self) -> (r: Hittable<T>)
        ensures
            r == Hittable::BvhNode(Box::new(self)),
    {
        Hittable::BvhNode(Box::new(self))
    }

    /// The positions of the two shapes whose joint box is smallest, if there
    /// are two shapes.
    pub fn closest_pair(objects: &Vec<Hittable<T>>) -> (r: Option<(usize, usize)>)
        ensures
            r.is_some() == (objects@.len() >= 2),
            r matches Some(p) ==> (p.0 as int, p.1 as int) == Self::closest_pair_spec(objects@)
                && p.0 < p.1 < objects@.len(),
    {
        if objects.len() < 2 {
            return None;
        }
        let pairs = index_pairs(objects.len());
        let ghost all = pairs_from(0, objects@.len() as int);
        proof {
            pairs_nonempty(objects@.len() as int);
            assert(pairs@.len() == all.len());
            assert forall|k: int| 0 <= k < pairs@.len() implies ((#[trigger] pairs@[k]).0 as int, pairs@[k].1 as int) == all[k]
                && pairs@[k].0 < pairs@[k].1 < objects@.len() by {
                assert(pairs@.map_values(|p: (usize, usize)| (p.0 as int, p.1 as int))[k] == all[k]);
                pairs_in_range(0, objects@.len() as int, k);
            }
        }
        let mut best = pairs[0];
        let mut best_volume = Self::volume_of_pair(objects, best);
        let mut k: usize = 1;
        while k < pairs.len()
            invariant
                1 <= k <= pairs@.len(),
                all == pairs_from(0, objects@.len() as int),
                pairs@.len() == all.len(),
                forall|m: int|
                    0 <= m < pairs@.len() ==> ((#[trigger] pairs@[m]).0 as int, pairs@[m].1 as int)
                        == all[m] && pairs@[m].0 < pairs@[m].1 < objects@.len(),
                (best.0 as int, best.1 as int) == Self::closest_among(objects@, all, k as int),
                best.0 < best.1 < objects@.len(),
                best_volume == Self::joint_volume(objects@, (best.0 as int, best.1 as int)),
            decreases pairs@.len() - k,
        {
            let candidate = pairs[k];
            let volume = Self::volume_of_pair(objects, candidate);
            if !less(best_volume, volume) {
                best = candidate;
                best_volume = volume;
            }
            k += 1;
        }
        Some(best)
    }

    fn volume_of_pair(objects: &Vec<Hittable<T>>, p: (usize, usize)) -> (r: T)
        requires
            p.0 < objects@.len(),
            p.1 < objects@.len(),
        ensures
            r == Self::joint_volume(objects@, (p.0 as int, p.1 as int)),
    {
        let a_bb = objects[p.0].bounding_box();
        let b_bb = objects[p.1].bounding_box();
        BoundingBox::containing(&a_bb, &b_bb).volume()
    }

    /// The tree over a list of shapes. Again and again the two shapes whose
    /// joint box is smallest are joined under a node, which takes their place
    /// at the end of the list, until one shape is left.
    pub fn create(objects: Vec<Hittable<T>>) -> (r: BvhNode<T>)
        ensures
            r.is_tree_of(objects@),
    {
        let ghost start = objects@;
        let mut objects = objects;
        while objects.len() >= 2
            invariant
                forall|rest: Seq<Hittable<T>>|
                    Self::is_reduction_of(objects@, rest) ==> Self::is_reduction_of(start, rest),
            decreases objects@.len(),
        {
            let ghost before = objects@;
            let (i, j) = Self::closest_pair(&objects).unwrap();
            let b = objects.remove(j);
            let a = objects.remove(i);
            let node = BvhNode::new(a, b);
            objects.push(Hittable::BvhNode(Box::new(node)));
            proof {
                assert(objects@.drop_last() == before.remove(j as int).remove(i as int));
                assert(Self::is_merge_of(before, objects@));
            }
        }
        let ghost rest = objects@;
        assert(Self::is_reduction_of(rest, rest));
        assert(Self::is_reduction_of(start, rest));
        let only = match objects.pop() {
            Some(h) => h,
            None => Hittable::NotHittable(NotHittable),
        };
        let root = BvhNode::new(Hittable::NotHittable(NotHittable), only);
        assert(root.is_node_of(
            Hittable::NotHittable(NotHittable),
            if rest.len() == 0 {
                Hittable::NotHittable(NotHittable)
            } else {
                rest[0]
            },
        ));
        root
    }

    /// The closest hit below this node within `ray_t`.
    pub fn hit<'a>(&'a self, ray: &Ray<T>, ray_t: &Interval<T>) -> (r: Option<HitRecord<'a, T>>)
        ensures
            r == self.hit_spec(*ray, *ray_t),
        decreases self,
    {
        if self.bounding_box.hit(ray, ray_t).is_none() {
            return None;
        }
        match (self.left.hit(ray, ray_t), self.right.hit(ray, ray_t)) {
            (Some(a), None) => Some(a),
            (None, Some(b)) => Some(b),
            (Some(a), Some(b)) => if less(a.t, b.t) {
                Some(a)
            } else {
                Some(b)
            },
            (None, None) => None,
        }
    }

    /// The box around both children, as it was worked out when the node was
    /// made.
    pub fn bounding_box(&self) -> (r: BoundingBox<T>)
        ensures
            r == self.bounding_box_spec(),
    {
        self.bounding_box
    }
}

/// Whether `among` holds of a shape.
pub open spec fn holds<T: Scalar>(among: spec_fn(Hittable<T>) -> bool, shape: Hittable<T>) -> bool {
    among(shape)
}

/// Whether `found` is the ray parameter of the closest hit within `ray_t`
/// among the shapes that `among` holds of: nothing if none of them is hit,
/// else a number that is the parameter of one shape's hit and lies at or
/// before that of every other.
pub open spec fn is_closest<T: Scalar>(
    among: spec_fn(Hittable<T>) -> bool,
    ray: Ray<T>,
    ray_t: Interval<T>,
    found: Option<T>,
) -> bool {
    match found {
        None => forall|l: Hittable<T>| among(l) ==> (#[trigger] l.hit_time(ray, ray_t)).is_none(),
        Some(t) => {
            &&& t.is_number()
            &&& exists|l: Hittable<T>| among(l) && #[trigger] l.hit_time(ray, ray_t) == Some(t)
            &&& forall|l: Hittable<T>|
                among(l) ==> match #[trigger] l.hit_time(ray, ray_t) {
                    Some(g) => t.le(g),
                    None => true,
                }
        },
    }
}

/// Two closest hits among the same shapes lie equally far away.
pub proof fn closest_is_unique<T: Scalar>(
    among: spec_fn(Hittable<T>) -> bool,
    other: spec_fn(Hittable<T>) -> bool,
    ray: Ray<T>,
    ray_t: Interval<T>,
    found: Option<T>,
    also_found: Option<T>,
)
    requires
        forall|l: Hittable<T>| #[trigger] holds(among, l) == holds(other, l),
        is_closest(among, ray, ray_t, found),
        is_closest(other, ray, ray_t, also_found),
    ensures
        found.is_some() == also_found.is_some(),
        found.is_some() ==> same(found.unwrap(), also_found.unwrap()),
{
    if let Some(t) = found {
        let l = choose|l: Hittable<T>| among(l) && #[trigger] l.hit_time(ray, ray_t) == Some(t);
        assert(holds(among, l) == holds(other, l));
    }
    if let Some(u) = also_found {
        let m = choose|m: Hittable<T>| other(m) && #[trigger] m.hit_time(ray, ray_t) == Some(u);
        assert(holds(among, m) == holds(other, m));
    }
}

/// The hit that a tree reports is the closest among the shapes at its tips,
/// provided none of its boxes keeps the ray from a shape it would hit, and
/// the hits of the shapes are numbers.
pub proof fn tree_hit_is_closest<T: Scalar>(tree: Hittable<T>, ray: Ray<T>, ray_t: Interval<T>)
    requires
        tree.never_cut_off(ray, ray_t),
        forall|l: Hittable<T>|
            tree.has_leaf(l) ==> match #[trigger] l.hit_time(ray, ray_t) {
                Some(g) => g.is_number(),
                None => true,
            },
    ensures
        is_closest(|l: Hittable<T>| tree.has_leaf(l), ray, ray_t, tree.hit_time(ray, ray_t)),
    decreases tree,
{
    let among = |l: Hittable<T>| tree.has_leaf(l);
    match tree {
        Hittable::BvhNode(n) => {
            let left = n.left();
            let right = n.right();
            tree_hit_is_closest(left, ray, ray_t);
            tree_hit_is_closest(right, ray, ray_t);
            let in_left = |l: Hittable<T>| left.has_leaf(l);
            let in_right = |l: Hittable<T>| right.has_leaf(l);
            let a = left.hit_time(ray, ray_t);
            let b = right.hit_time(ray, ray_t);
            assert(is_closest(in_left, ray, ray_t, a));
            assert(is_closest(in_right, ray, ray_t, b));
            match (a, b) {
                (Some(x), Some(y)) => {
                    T::le_total(x, y);
                    let t = if lt(x, y) {
                        x
                    } else {
                        y
                    };
                    assert(tree.hit_time(ray, ray_t) == Some(t));
                    assert forall|l: Hittable<T>| among(l) implies match #[trigger] l.hit_time(
                        ray,
                        ray_t,
                    ) {
                        Some(g) => t.le(g),
                        None => true,
                    } by {
                        if let Some(g) = l.hit_time(ray, ray_t) {
                            if in_left(l) {
                                T::le_transitive(t, x, g);
                            } else {
                                T::le_transitive(t, y, g);
                            }
                        }
                    }
                    let l = if lt(x, y) {
                        choose|l: Hittable<T>| in_left(l) && #[trigger] l.hit_time(ray, ray_t) == Some(x)
                    } else {
                        choose|l: Hittable<T>| in_right(l) && #[trigger] l.hit_time(ray, ray_t) == Some(y)
                    };
                    assert(among(l) && l.hit_time(ray, ray_t) == Some(t));
                },
                (Some(x), None) => {
                    assert(tree.hit_time(ray, ray_t) == Some(x));
                    let l = choose|l: Hittable<T>|
                        in_left(l) && #[trigger] l.hit_time(ray, ray_t) == Some(x);
                    assert(among(l) && l.hit_time(ray, ray_t) == Some(x));
                },
                (None, Some(y)) => {
                    assert(tree.hit_time(ray, ray_t) == Some(y));
                    let l = choose|l: Hittable<T>|
                        in_right(l) && #[trigger] l.hit_time(ray, ray_t) == Some(y);
                    assert(among(l) && l.hit_time(ray, ray_t) == Some(y));
                },
                (None, None) => {
                    assert(tree.hit_time(ray, ray_t).is_none());
                },
            }
        },
        Hittable::NotHittable(_) => {},
        _ => {
            assert(among(tree));
            if let Some(t) = tree.hit_time(ray, ray_t) {
                T::le_total(t, t);
            }
        },
    }
}

/// The box of a node covers the box of each of the two shapes it was made
/// over, where that box is solid or empty.
pub proof fn node_box_covers_children<T: Scalar>(node: BvhNode<T>, a: Hittable<T>, b: Hittable<T>)
    requires
        node.is_node_of(a, b),
        a.bounding_box_spec().wf(),
        b.bounding_box_spec().wf(),
    ensures
        node.bounding_box_spec().wf(),
        a.bounding_box_spec().is_solid() || a.bounding_box_spec().is_empty_spec()
            ==> node.bounding_box_spec().covers(a.bounding_box_spec()),
        b.bounding_box_spec().is_solid() || b.bounding_box_spec().is_empty_spec()
            ==> node.bounding_box_spec().covers(b.bounding_box_spec()),
{
    BoundingBox::containing_covers(a.bounding_box_spec(), b.bounding_box_spec());
}

/// The left child of a node has the box of smaller volume, where the two
/// volumes are numbers.
pub proof fn node_children_are_ordered<T: Scalar>(node: BvhNode<T>, a: Hittable<T>, b: Hittable<T>)
    requires
        node.is_node_of(a, b),
        a.bounding_box_spec().volume_spec().is_number(),
        b.bounding_box_spec().volume_spec().is_number(),
    ensures
        node.left().bounding_box_spec().volume_spec().le(
            node.right().bounding_box_spec().volume_spec(),
        ),
{
    T::le_total(a.bounding_box_spec().volume_spec(), b.bounding_box_spec().volume_spec());
}

/// Whether `leaf` is at a tip of one of the trees of a list.
pub open spec fn list_has_leaf<T: Scalar>(objects: Seq<Hittable<T>>, leaf: Hittable<T>) -> bool {
    exists|k: int| 0 <= k < objects.len() && (#[trigger] objects[k]).has_leaf(leaf)
}

/// The pair chosen among pairs of positions is one of them.
pub proof fn closest_is_a_pair<T: Scalar>(
    objects: Seq<Hittable<T>>,
    pairs: Seq<(int, int)>,
    k: int,
)
    requires
        1 <= k <= pairs.len(),
    ensures
        exists|m: int| 0 <= m < k && #[trigger] pairs[m] == BvhNode::closest_among(objects, pairs, k),
    decreases k,
{
    if k <= 1 {
        assert(pairs[0] == BvhNode::closest_among(objects, pairs, k));
    } else {
        closest_is_a_pair(objects, pairs, k - 1);
        let kept = BvhNode::closest_among(objects, pairs, k - 1);
        let m = choose|m: int| 0 <= m < k - 1 && #[trigger] pairs[m] == kept;
        if lt(BvhNode::joint_volume(objects, kept), BvhNode::joint_volume(objects, pairs[k - 1])) {
            assert(pairs[m] == BvhNode::closest_among(objects, pairs, k));
        } else {
            assert(pairs[k - 1] == BvhNode::closest_among(objects, pairs, k));
        }
    }
}

/// Every pair of positions, the smaller first, is in the list of pairs.
pub proof fn pair_occurs(first: int, n: int, i: int, j: int)
    requires
        0 <= first <= i < j < n,
    ensures
        exists|m: int| 0 <= m < pairs_from(first, n).len() && #[trigger] pairs_from(first, n)[m] == (i, j),
    decreases n - first,
{
    let row = pairs_with_first(first, n);
    if i == first {
        assert(pairs_from(first, n)[j - i - 1] == (i, j));
    } else {
        pair_occurs(first + 1, n, i, j);
        let m = choose|m: int|
            0 <= m < pairs_from(first + 1, n).len() && #[trigger] pairs_from(first + 1, n)[m] == (
                i,
                j,
            );
        assert(pairs_from(first, n)[row.len() + m] == (i, j));
    }
}

/// No pair among the first `k` has a joint volume below that of the pair
/// chosen among them, where the joint volumes are numbers.
pub proof fn closest_among_is_smallest<T: Scalar>(
    objects: Seq<Hittable<T>>,
    pairs: Seq<(int, int)>,
    k: int,
    m: int,
)
    requires
        0 <= m < k <= pairs.len(),
        forall|q: int| 0 <= q < k ==> BvhNode::joint_volume(objects, #[trigger] pairs[q]).is_number(),
    ensures
        BvhNode::joint_volume(objects, BvhNode::closest_among(objects, pairs, k)).le(
            BvhNode::joint_volume(objects, pairs[m]),
        ),
    decreases k,
{
    let last = BvhNode::joint_volume(objects, pairs[k - 1]);
    T::le_total(last, last);
    if k > 1 {
        let kept = BvhNode::closest_among(objects, pairs, k - 1);
        let kept_volume = BvhNode::joint_volume(objects, kept);
        closest_is_a_pair(objects, pairs, k - 1);
        T::le_total(kept_volume, last);
        if m < k - 1 {
            closest_among_is_smallest(objects, pairs, k - 1, m);
            if !lt(kept_volume, last) {
                T::le_transitive(last, kept_volume, BvhNode::joint_volume(objects, pairs[m]));
            }
        }
    }
}

/// The pair that is joined next has the smallest joint volume of all pairs,
/// where the joint volumes are numbers.
pub proof fn closest_pair_is_smallest<T: Scalar>(objects: Seq<Hittable<T>>, i: int, j: int)
    requires
        0 <= i < j < objects.len(),
        forall|a: int, b: int|
            0 <= a < b < objects.len() ==> (#[trigger] BvhNode::joint_volume(
                objects,
                (a, b),
            )).is_number(),
    ensures
        BvhNode::joint_volume(objects, BvhNode::closest_pair_spec(objects)).le(
            BvhNode::joint_volume(objects, (i, j)),
        ),
{
    let pairs = pairs_from(0, objects.len() as int);
    pair_occurs(0, objects.len() as int, i, j);
    let m = choose|m: int| 0 <= m < pairs.len() && #[trigger] pairs[m] == (i, j);
    assert forall|q: int| 0 <= q < pairs.len() implies BvhNode::joint_volume(
        objects,
        #[trigger] pairs[q],
    ).is_number() by {
        pairs_in_range(0, objects.len() as int, q);
        assert(pairs[q] == (pairs[q].0, pairs[q].1));
    }
    closest_among_is_smallest(objects, pairs, pairs.len() as int, m);
}

/// The closest pair of a list names two positions of the list, the smaller
/// first.
pub proof fn closest_pair_in_range<T: Scalar>(objects: Seq<Hittable<T>>)
    requires
        2 <= objects.len(),
    ensures
        0 <= BvhNode::closest_pair_spec(objects).0 < BvhNode::closest_pair_spec(objects).1
            < objects.len(),
{
    let pairs = pairs_from(0, objects.len() as int);
    pairs_nonempty(objects.len() as int);
    closest_is_a_pair(objects, pairs, pairs.len() as int);
    let m = choose|m: int|
        0 <= m < pairs.len() && #[trigger] pairs[m] == BvhNode::closest_pair_spec(objects);
    pairs_in_range(0, objects.len() as int, m);
}

/// Joining the closest pair of a list under a node neither adds nor loses a
/// leaf.
pub proof fn merge_keeps_leaves<T: Scalar>(
    objects: Seq<Hittable<T>>,
    next: Seq<Hittable<T>>,
    leaf: Hittable<T>,
)
    requires
        2 <= objects.len(),
        BvhNode::is_merge_of(objects, next),
    ensures
        list_has_leaf(next, leaf) == list_has_leaf(objects, leaf),
{
    closest_pair_in_range(objects);
    let p = BvhNode::closest_pair_spec(objects);
    let i = p.0;
    let j = p.1;
    let mid = objects.remove(j);
    let short = mid.remove(i);
    let node = next.last()->BvhNode_0;
    assert(next.last().has_leaf(leaf) == node.has_leaf(leaf));
    assert(node.has_leaf(leaf) == (objects[i].has_leaf(leaf) || objects[j].has_leaf(leaf)));
    assert forall|m: int| 0 <= m < next.len() - 1 implies #[trigger] next[m] == objects[if m < i {
        m
    } else if m + 1 < j {
        m + 1
    } else {
        m + 2
    }] by {
        assert(next[m] == next.drop_last()[m]);
        assert(short[m] == if m < i {
            mid[m]
        } else {
            mid[m + 1]
        });
    }
    if list_has_leaf(next, leaf) {
        let m = choose|m: int| 0 <= m < next.len() && (#[trigger] next[m]).has_leaf(leaf);
        if m == next.len() - 1 {
            if objects[i].has_leaf(leaf) {
                assert(list_has_leaf(objects, leaf));
            } else {
                assert(objects[j].has_leaf(leaf));
                assert(list_has_leaf(objects, leaf));
            }
        } else {
            let k = if m < i {
                m
            } else if m + 1 < j {
                m + 1
            } else {
                m + 2
            };
            assert(objects[k].has_leaf(leaf));
        }
    }
    if list_has_leaf(objects, leaf) {
        let k = choose|k: int| 0 <= k < objects.len() && (#[trigger] objects[k]).has_leaf(leaf);
        if k == i || k == j {
            assert(next[next.len() - 1].has_leaf(leaf));
        } else {
            let m = if k < i {
                k
            } else if k < j {
                k - 1
            } else {
                k - 2
            };
            assert(next[m] == objects[k]);
            assert(next[m].has_leaf(leaf));
        }
    }
}

/// Joining closest pairs until fewer than two trees remain neither adds nor
/// loses a leaf.
pub proof fn reduction_keeps_leaves<T: Scalar>(
    objects: Seq<Hittable<T>>,
    rest: Seq<Hittable<T>>,
    leaf: Hittable<T>,
)
    requires
        BvhNode::is_reduction_of(objects, rest),
    ensures
        list_has_leaf(rest, leaf) == list_has_leaf(objects, leaf),
    decreases objects.len(),
{
    if objects.len() >= 2 {
        let next = choose|next: Seq<Hittable<T>>|
            (#[trigger] BvhNode::is_merge_of(objects, next)) && BvhNode::is_reduction_of(next, rest);
        merge_keeps_leaves(objects, next, leaf);
        reduction_keeps_leaves(next, rest, leaf);
    }
}

/// The leaves of the tree over a list are the leaves of the list.
pub proof fn tree_keeps_leaves<T: Scalar>(
    tree: BvhNode<T>,
    objects: Seq<Hittable<T>>,
    leaf: Hittable<T>,
)
    requires
        tree.is_tree_of(objects),
    ensures
        tree.has_leaf(leaf) == list_has_leaf(objects, leaf),
{
    let rest = choose|rest: Seq<Hittable<T>>|
        (#[trigger] BvhNode::is_reduction_of(objects, rest)) && rest.len() <= 1 && tree.is_node_of(
            Hittable::NotHittable(NotHittable),
            if rest.len() == 0 {
                Hittable::NotHittable(NotHittable)
            } else {
                rest[0]
            },
        );
    reduction_keeps_leaves(objects, rest, leaf);
    if rest.len() == 1 {
        assert(tree.has_leaf(leaf) == rest[0].has_leaf(leaf));
        if rest[0].has_leaf(leaf) {
            assert(list_has_leaf(rest, leaf));
        }
    }
}

/// The box of a tree whose boxes are in order is well formed and solid or
/// empty.
pub proof fn boxed_tree_has_a_sound_box<T: Scalar>(tree: Hittable<T>)
    requires
        tree.is_boxed(),
    ensures
        tree.bounding_box_spec().wf(),
        tree.bounding_box_spec().is_solid() || tree.bounding_box_spec().is_empty_spec(),
    decreases tree,
{
    match tree {
        Hittable::BvhNode(n) => {
            boxed_tree_has_a_sound_box(n.left());
            boxed_tree_has_a_sound_box(n.right());
            let l = n.left().bounding_box_spec();
            let r = n.right().bounding_box_spec();
            BoundingBox::containing_covers(l, r);
            BoundingBox::containing_covers(r, l);
            BoundingBox::containing_keeps_shape(l, r);
            BoundingBox::containing_keeps_shape(r, l);
        },
        _ => {},
    }
}

/// Joining the closest pair of a list of trees whose boxes are in order
/// leaves a list of such trees.
pub proof fn merge_keeps_boxes<T: Scalar>(objects: Seq<Hittable<T>>, next: Seq<Hittable<T>>)
    requires
        2 <= objects.len(),
        BvhNode::is_merge_of(objects, next),
        forall|k: int| 0 <= k < objects.len() ==> (#[trigger] objects[k]).is_boxed(),
    ensures
        forall|m: int| 0 <= m < next.len() ==> (#[trigger] next[m]).is_boxed(),
{
    closest_pair_in_range(objects);
    let p = BvhNode::closest_pair_spec(objects);
    let i = p.0;
    let j = p.1;
    let mid = objects.remove(j);
    let short = mid.remove(i);
    let node = next.last()->BvhNode_0;
    assert(objects[i].is_boxed() && objects[j].is_boxed());
    assert(next.last().is_boxed() == node.is_boxed());
    assert(node.is_boxed());
    assert forall|m: int| 0 <= m < next.len() implies (#[trigger] next[m]).is_boxed() by {
        if m < next.len() - 1 {
            assert(next[m] == next.drop_last()[m]);
            assert(short[m] == if m < i {
                mid[m]
            } else {
                mid[m + 1]
            });
            let k = if m < i {
                m
            } else if m + 1 < j {
                m + 1
            } else {
                m + 2
            };
            assert(next[m] == objects[k]);
        }
    }
}

/// Joining closest pairs until fewer than two trees remain leaves trees
/// whose boxes are in order, if it began with such trees.
pub proof fn reduction_keeps_boxes<T: Scalar>(objects: Seq<Hittable<T>>, rest: Seq<Hittable<T>>)
    requires
        BvhNode::is_reduction_of(objects, rest),
        forall|k: int| 0 <= k < objects.len() ==> (#[trigger] objects[k]).is_boxed(),
    ensures
        forall|m: int| 0 <= m < rest.len() ==> (#[trigger] rest[m]).is_boxed(),
    decreases objects.len(),
{
    if objects.len() >= 2 {
        let next = choose|next: Seq<Hittable<T>>|
            (#[trigger] BvhNode::is_merge_of(objects, next)) && BvhNode::is_reduction_of(next, rest);
        merge_keeps_boxes(objects, next);
        reduction_keeps_boxes(next, rest);
    }
}

/// The boxes of the tree over a list of shapes are in order, if the box of
/// each shape is well formed and solid or empty.
pub proof fn tree_is_boxed<T: Scalar>(tree: BvhNode<T>, objects: Seq<Hittable<T>>)
    requires
        tree.is_tree_of(objects),
        forall|k: int| 0 <= k < objects.len() ==> (#[trigger] objects[k]).is_boxed(),
    ensures
        tree.is_boxed(),
{
    let rest = choose|rest: Seq<Hittable<T>>|
        (#[trigger] BvhNode::is_reduction_of(objects, rest)) && rest.len() <= 1 && tree.is_node_of(
            Hittable::NotHittable(NotHittable),
            if rest.len() == 0 {
                Hittable::NotHittable(NotHittable)
            } else {
                rest[0]
            },
        );
    reduction_keeps_boxes(objects, rest);
    T::zero_is_number();
    Interval::<T>::new_is_ordered(T::zero_spec(), T::zero_spec());
    let nothing = Hittable::<T>::NotHittable(NotHittable);
    assert(nothing.is_boxed());
    if rest.len() == 1 {
        assert(rest[0].is_boxed());
    }
}

/// In fixed-point numbers no box of a tree keeps a ray from a shape that it
/// would hit, and the tree is hit only where its own box is, provided that
/// the boxes of the tree are in order and that each shape at a tip is hit
/// only where its own box is.
pub proof fn fixed_point_tree_never_cuts_off(
    tree: Hittable<Fixed>,
    ray: Ray<Fixed>,
    ray_t: Interval<Fixed>,
)
    requires
        tree.is_boxed(),
        forall|l: Hittable<Fixed>| tree.has_leaf(l) ==> #[trigger] l.is_within_its_box(ray, ray_t),
    ensures
        tree.never_cut_off(ray, ray_t),
        tree.is_within_its_box(ray, ray_t),
    decreases tree,
{
    match tree {
        Hittable::BvhNode(n) => {
            let left = n.left();
            let right = n.right();
            assert forall|l: Hittable<Fixed>| left.has_leaf(l) implies #[trigger] l.is_within_its_box(
                ray,
                ray_t,
            ) by {
                assert(tree.has_leaf(l));
            }
            assert forall|l: Hittable<Fixed>| right.has_leaf(l) implies #[trigger] l.is_within_its_box(
                ray,
                ray_t,
            ) by {
                assert(tree.has_leaf(l));
            }
            fixed_point_tree_never_cuts_off(left, ray, ray_t);
            fixed_point_tree_never_cuts_off(right, ray, ray_t);
            boxed_tree_has_a_sound_box(left);
            boxed_tree_has_a_sound_box(right);
            let l = left.bounding_box_spec();
            let r = right.bounding_box_spec();
            BoundingBox::containing_covers(l, r);
            BoundingBox::containing_covers(r, l);
            if left.hit_spec(ray, ray_t).is_some() {
                fixed_point_box_hit_is_monotone(l, n.bounding_box_spec(), ray, ray_t);
            }
            if right.hit_spec(ray, ray_t).is_some() {
                fixed_point_box_hit_is_monotone(r, n.bounding_box_spec(), ray, ray_t);
            }
        },
        Hittable::NotHittable(_) => {},
        _ => {
            assert(tree.has_leaf(tree));
        },
    }
}

} // verus!
