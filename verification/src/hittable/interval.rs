//! Closed ranges of scalars.

use vstd::prelude::*;
use crate::fixed::Fixed;
use crate::scalar::Scalar;
use crate::scalar::lt;
use crate::scalar::same;
use crate::scalar::min_spec;
use crate::scalar::max_spec;
use crate::scalar::min;
use crate::scalar::max;
use crate::scalar::alike;
use crate::scalar::less;

verus! {

/// The range between two numbers. It serves both as a range of ray parameters
/// and as the extent of a box along one axis. The range from zero to zero is
/// the empty range.
#[derive(Debug, PartialEq)]
pub struct Interval<T> {
    pub min: T,
    pub max: T,
}

impl<T: Copy> Clone for Interval<T> {
    fn clone(&self) -> (r: Self)
        ensures
            r == *self,
    {
        Interval { min: self.min, max: self.max }
    }
}

impl<T: Copy> Copy for Interval<T> {}

impl<T: Scalar> Interval<T> {
    /// The ends are numbers and in order.
    pub open spec fn wf(self) -> bool {
        self.min.le(self.max)
    }

    pub open spec fn new_spec(a: T, b: T) -> Self {
        Interval { min: min_spec(a, b), max: max_spec(a, b) }
    }

    pub open spec fn empty_spec() -> Self {
        Self::new_spec(T::zero_spec(), T::zero_spec())
    }

    /// Both ends lie at zero.
    pub open spec fn is_empty_spec(self) -> bool {
        same(self.min, T::zero_spec()) && same(self.max, T::zero_spec())
    }

    /// `self` reaches at least as far as `other` at both ends.
    pub open spec fn contains(self, other: Self) -> bool {
        self.min.le(other.min) && other.max.le(self.max)
    }

    /// `self` holds every point of `other`, which an empty `other` has none of.
    pub open spec fn covers(self, other: Self) -> bool {
        other.is_empty_spec() || self.contains(other)
    }

    /// `t` lies below the range or above it.
    pub open spec fn excludes(self, t: T) -> bool {
        lt(t, self.min) || lt(self.max, t)
    }

    /// The range with its far end moved to `c`.
    pub open spec fn ending_at(self, c: T) -> Self {
        Interval { min: self.min, max: c }
    }

    /// The two ranges have their ends at the same places.
    pub open spec fn equivalent(self, other: Self) -> bool {
        same(self.min, other.min) && same(self.max, other.max)
    }

    pub open spec fn expand_spec(self, delta: T) -> Self {
        let padding = delta.quotient(T::ratio_spec(2, 1));
        Interval { min: self.min.difference(padding), max: self.max.sum(padding) }
    }

    /// The smallest range that covers both. An empty range adds nothing: with
    /// it, the other range comes back as it is.
    pub open spec fn containing_spec(a: Self, b: Self) -> Self {
        if b.is_empty_spec() {
            a
        } else if a.is_empty_spec() {
            b
        } else {
            Self::new_spec(min_spec(a.min, b.min), max_spec(a.max, b.max))
        }
    }

    /// The part that two ranges share, unless it has no width.
    pub open spec fn overlap_spec(a: Self, b: Self) -> Option<Self> {
        let low = max_spec(a.min, b.min);
        let high = min_spec(a.max, b.max);
        if high.le(low) {
            None
        } else {
            Some(Interval { min: low, max: high })
        }
    }

    /// The range between `a` and `b`, whichever is smaller.
    pub fn new(a: T, b: T) -> (r: Self)
        ensures
            r == Self::new_spec(a, b),
            a.is_number() && b.is_number() ==> r.wf(),
    {
        proof {
            if a.is_number() && b.is_number() {
                Self::new_is_ordered(a, b);
            }
        }
        Interval { min: min(a, b), max: max(a, b) }
    }

    /// The range from zero to zero.
    pub fn empty() -> (r: Self)
        ensures
            r == Self::empty_spec(),
            r.wf(),
            r.is_empty_spec(),
            r.min == T::zero_spec(),
            r.max == T::zero_spec(),
    {
        proof {
            T::zero_is_number();
            T::le_total(T::zero_spec(), T::zero_spec());
        }
        Self::new(T::zero(), T::zero())
    }

    pub fn is_empty(&self) -> (r: bool)
        ensures
            r == self.is_empty_spec(),
    {
        alike(self.min, T::zero()) && alike(self.max, T::zero())
    }

    /// Whether `t` lies below the range or above it.
    pub fn shuts_out(&self, t: T) -> (r: bool)
        ensures
            r == self.excludes(t),
    {
        less(t, self.min) || less(self.max, t)
    }

    /// The width of the range.
    pub fn size(&self) -> (r: T)
        ensures
            r == self.max.difference(self.min),
    {
        self.max.minus(self.min)
    }

    /// The range widened by `delta` in all, half of it at each end.
    pub fn expand(&self, delta: T) -> (r: Self)
        ensures
            r == self.expand_spec(delta),
    {
        let padding = delta.over(T::ratio(2, 1));
        Interval { min: self.min.minus(padding), max: self.max.plus(padding) }
    }

    /// The smallest range that covers both; an empty one adds nothing.
    pub fn containing(a: Self, b: Self) -> (r: Self)
        ensures
            r == Self::containing_spec(a, b),
    {
        if b.is_empty() {
            a
        } else if a.is_empty() {
            b
        } else {
            Self::new(min(a.min, b.min), max(a.max, b.max))
        }
    }

    /// The part that two ranges share, if it has any width.
    pub fn overlap(a: Self, b: Self) -> (r: Option<Self>)
        ensures
            r == Self::overlap_spec(a, b),
    {
        let low = max(a.min, b.min);
        let high = min(a.max, b.max);
        if high.at_most(low) {
            None
        } else {
            Some(Interval { min: low, max: high })
        }
    }

    /// The ends of a range built by `new` from two numbers are in order.
    pub proof fn new_is_ordered(a: T, b: T)
        requires
            a.is_number(),
            b.is_number(),
        ensures
            Self::new_spec(a, b).wf(),
            Self::new_spec(a, b).min.le(a),
            Self::new_spec(a, b).min.le(b),
            a.le(Self::new_spec(a, b).max),
            b.le(Self::new_spec(a, b).max),
    {
        T::le_total(a, b);
        T::le_total(a, a);
        T::le_total(b, b);
    }

    /// Overlap does not depend on the order of its operands: it is defined
    /// for both orders or for neither, and the two results have their ends at
    /// the same places.
    pub proof fn overlap_symmetric(a: Self, b: Self)
        requires
            a.wf(),
            b.wf(),
        ensures
            Self::overlap_spec(a, b).is_some() == Self::overlap_spec(b, a).is_some(),
            Self::overlap_spec(a, b).is_some() ==> Self::overlap_spec(a, b).unwrap().equivalent(
                Self::overlap_spec(b, a).unwrap(),
            ),
    {
        Self::overlap_bounds(a, b);
        Self::overlap_bounds(b, a);
        let low1 = max_spec(a.min, b.min);
        let high1 = min_spec(a.max, b.max);
        let low2 = max_spec(b.min, a.min);
        let high2 = min_spec(b.max, a.max);
        // Each pair of ends is the same place in the order.
        assert(same(low1, low2));
        assert(same(high1, high2));
        if high1.le(low1) {
            T::le_transitive(high2, high1, low1);
            T::le_transitive(high2, low1, low2);
        }
        if high2.le(low2) {
            T::le_transitive(high1, high2, low2);
            T::le_transitive(high1, low2, low1);
        }
    }

    /// An overlap lies within both of its operands, and has width.
    pub proof fn overlap_within(a: Self, b: Self)
        requires
            a.wf(),
            b.wf(),
            Self::overlap_spec(a, b).is_some(),
        ensures
            a.contains(Self::overlap_spec(a, b).unwrap()),
            b.contains(Self::overlap_spec(a, b).unwrap()),
            Self::overlap_spec(a, b).unwrap().wf(),
            lt(Self::overlap_spec(a, b).unwrap().min, Self::overlap_spec(a, b).unwrap().max),
    {
        Self::overlap_bounds(a, b);
        let low = max_spec(a.min, b.min);
        let high = min_spec(a.max, b.max);
        T::le_total(low, high);
    }

    /// How the larger of the lower ends and the smaller of the upper ends
    /// stand to the ends themselves.
    proof fn overlap_bounds(a: Self, b: Self)
        requires
            a.wf(),
            b.wf(),
        ensures
            a.min.le(max_spec(a.min, b.min)),
            b.min.le(max_spec(a.min, b.min)),
            min_spec(a.max, b.max).le(a.max),
            min_spec(a.max, b.max).le(b.max),
            max_spec(a.min, b.min).is_number(),
            min_spec(a.max, b.max).is_number(),
            max_spec(a.min, b.min) == a.min || max_spec(a.min, b.min) == b.min,
            min_spec(a.max, b.max) == a.max || min_spec(a.max, b.max) == b.max,
    {
        T::le_numbers(a.min, a.max);
        T::le_numbers(b.min, b.max);
        T::le_total(a.min, b.min);
        T::le_total(a.max, b.max);
        T::le_total(a.min, a.min);
        T::le_total(b.min, b.min);
        T::le_total(a.max, a.max);
        T::le_total(b.max, b.max);
    }

    /// The range that contains two ranges covers each of them.
    pub proof fn containing_covers(a: Self, b: Self)
        requires
            a.wf(),
            b.wf(),
        ensures
            Self::containing_spec(a, b).wf(),
            Self::containing_spec(a, b).covers(a),
            Self::containing_spec(a, b).covers(b),
    {
        T::zero_is_number();
        Self::new_is_ordered(T::zero_spec(), T::zero_spec());
        Self::overlap_bounds(a, b);
        T::le_numbers(a.min, a.max);
        T::le_numbers(b.min, b.max);
        Self::new_is_ordered(a.min, b.min);
        Self::new_is_ordered(a.max, b.max);
        if !a.is_empty_spec() && !b.is_empty_spec() {
            let low = min_spec(a.min, b.min);
            let high = max_spec(a.max, b.max);
            T::le_total(low, high);
            T::le_total(low, low);
            T::le_total(high, high);
            if low.le(high) {
            } else {
                // The lower end of one range cannot lie above the upper end
                // of the other's cover.
                T::le_transitive(low, a.min, a.max);
                T::le_transitive(low, a.max, high);
            }
            let r = Self::new_spec(low, high);
            Self::new_is_ordered(low, high);
            T::le_transitive(r.min, low, a.min);
            T::le_transitive(r.min, low, b.min);
            T::le_transitive(a.max, high, r.max);
            T::le_transitive(b.max, high, r.max);
        } else {
            T::le_total(a.min, a.min);
            T::le_total(a.max, a.max);
            T::le_total(b.min, b.min);
            T::le_total(b.max, b.max);
        }
    }

    /// The range that contains two ranges is empty only if both are.
    pub proof fn containing_keeps_extent(a: Self, b: Self)
        requires
            a.wf(),
            b.wf(),
        ensures
            Self::containing_spec(a, b).is_empty_spec() == (a.is_empty_spec()
                && b.is_empty_spec()),
    {
        T::zero_is_number();
        Self::new_is_ordered(T::zero_spec(), T::zero_spec());
        Self::containing_covers(a, b);
        let r = Self::containing_spec(a, b);
        if !a.is_empty_spec() && !b.is_empty_spec() {
            if r.is_empty_spec() {
                // A range between zero and zero holds nothing but zero.
                let zero = T::zero_spec();
                T::le_transitive(zero, r.min, a.min);
                T::le_transitive(a.max, r.max, zero);
                T::le_transitive(a.min, a.max, zero);
                T::le_transitive(zero, a.min, a.max);
            }
        }
    }

    /// A range that lies within the empty range is empty.
    pub proof fn nothing_fits_in_empty(outer: Self, inner: Self)
        requires
            inner.wf(),
            outer.is_empty_spec(),
            outer.contains(inner),
        ensures
            inner.is_empty_spec(),
    {
        let zero = T::zero_spec();
        T::le_transitive(zero, outer.min, inner.min);
        T::le_transitive(inner.max, outer.max, zero);
        T::le_transitive(inner.min, inner.max, zero);
        T::le_transitive(zero, inner.min, inner.max);
    }

    /// Containing a range together with an empty one gives the range back.
    pub proof fn containing_empty(a: Self, b: Self)
        requires
            b.is_empty_spec(),
        ensures
            Self::containing_spec(a, b) == a,
    {
    }
}

/// In fixed-point numbers, where no two numbers share a place in the order,
/// the overlap of two ranges is the same whichever comes first.
pub proof fn fixed_point_overlap_is_symmetric(a: Interval<Fixed>, b: Interval<Fixed>)
    ensures
        Interval::overlap_spec(a, b) == Interval::overlap_spec(b, a),
{
}

} // verus!
