//! The stretch of a line between two parameters, and how the planar solver
//! narrows it.
//!
//! The solver keeps the part of a constraint's boundary that is still
//! feasible in a segment and moves its bounds inwards. A bound moves only
//! to a parameter that lies strictly inside the segment, seen from that
//! bound; bounds that all but coincide are merged into their mean; and a
//! segment whose start lies beyond its end holds nothing.

use vstd::prelude::*;
use crate::points::Vec2Operations;

verus! {

/// Operations of a line segment of the plane that is given by a line and
/// the two parameters `t_min` and `t_max` that bound it.
///
/// Every method promises only that its result is the value of the
/// specification function of the same name.
pub trait LineSegment2DOperations: Vec2Operations + Sized {
    /// The line that carries the segment.
    type Ray;

    /// The segment of `line` between the two parameters.
    spec fn spec_new(line: &Self::Ray, t_min: Self::Scalar, t_max: Self::Scalar) -> Self;

    /// The line that carries the segment.
    spec fn spec_to_ray(&self) -> Self::Ray;

    /// The parameter at which the segment starts.
    spec fn spec_t_min(&self) -> Self::Scalar;

    /// The parameter at which the segment ends.
    spec fn spec_t_max(&self) -> Self::Scalar;

    /// The point at `t_min`.
    spec fn spec_start(&self) -> Self::Point;

    /// The point at `t_max`.
    spec fn spec_end(&self) -> Self::Point;

    /// Whether the parameter `a` lies strictly before the parameter `b`.
    spec fn spec_precedes(a: Self::Scalar, b: Self::Scalar) -> bool;

    /// Whether the two parameters are closer than the tolerance.
    spec fn spec_nearly_equal(a: Self::Scalar, b: Self::Scalar) -> bool;

    /// The parameter half-way between the two.
    spec fn spec_mean(a: Self::Scalar, b: Self::Scalar) -> Self::Scalar;

    /// Makes the segment of `line` between `t_min` and `t_max`.
    fn new(line: &Self::Ray, t_min: Self::Scalar, t_max: Self::Scalar) -> (segment: Self)
        ensures
            segment == Self::spec_new(line, t_min, t_max),
    ;

    /// Returns the line that carries the segment.
    fn to_ray(&self) -> (line: Self::Ray)
        ensures
            line == self.spec_to_ray(),
    ;

    /// Returns the parameter at which the segment starts.
    fn t_min(&self) -> (t: Self::Scalar)
        ensures
            t == self.spec_t_min(),
    ;

    /// Returns the parameter at which the segment ends.
    fn t_max(&self) -> (t: Self::Scalar)
        ensures
            t == self.spec_t_max(),
    ;

    /// Returns the point at which the segment starts.
    fn start(&self) -> (pt: Self::Point)
        ensures
            pt == self.spec_start(),
    ;

    /// Returns the point at which the segment ends.
    fn end(&self) -> (pt: Self::Point)
        ensures
            pt == self.spec_end(),
    ;

    /// Returns true if the parameter `a` lies strictly before `b`.
    fn precedes(a: Self::Scalar, b: Self::Scalar) -> (before: bool)
        ensures
            before == Self::spec_precedes(a, b),
    ;

    /// Returns true if the two parameters are closer than the tolerance.
    fn nearly_equal(a: Self::Scalar, b: Self::Scalar) -> (close: bool)
        ensures
            close == Self::spec_nearly_equal(a, b),
    ;

    /// Returns the parameter half-way between the two.
    fn mean(a: Self::Scalar, b: Self::Scalar) -> (middle: Self::Scalar)
        ensures
            middle == Self::spec_mean(a, b),
    ;
}

/// The segment with its start moved forward to `t`, where `t` lies
/// strictly beyond the start; nothing where it does not.
pub open spec fn clipped_min<L: LineSegment2DOperations>(segment: L, t: L::Scalar) -> Option<L> {
    if L::spec_precedes(segment.spec_t_min(), t) {
        Some(L::spec_new(&segment.spec_to_ray(), t, segment.spec_t_max()))
    } else {
        None
    }
}

/// The segment with its end moved back to `t`, where `t` lies strictly
/// before the end; nothing where it does not.
pub open spec fn clipped_max<L: LineSegment2DOperations>(segment: L, t: L::Scalar) -> Option<L> {
    if L::spec_precedes(t, segment.spec_t_max()) {
        Some(L::spec_new(&segment.spec_to_ray(), segment.spec_t_min(), t))
    } else {
        None
    }
}

/// The bounds of a segment after bounds that are closer than the tolerance
/// have been merged into their mean.
pub open spec fn merged_bounds<L: LineSegment2DOperations>(segment: L) -> (L::Scalar, L::Scalar) {
    let t_min = segment.spec_t_min();
    let t_max = segment.spec_t_max();
    if L::spec_nearly_equal(t_min, t_max) {
        (L::spec_mean(t_min, t_max), L::spec_mean(t_min, t_max))
    } else {
        (t_min, t_max)
    }
}

/// The segment with bounds that all but coincide merged into one; nothing
/// where the end then lies strictly before the start.
pub open spec fn settled<L: LineSegment2DOperations>(segment: L) -> Option<L> {
    let (t_min, t_max) = merged_bounds(segment);
    if L::spec_precedes(t_max, t_min) {
        None
    } else {
        Some(L::spec_new(&segment.spec_to_ray(), t_min, t_max))
    }
}

/// Moves the start of `segment` forward to `t`. Returns `None` where `t`
/// does not lie strictly beyond the start.
pub fn clip_min<L: LineSegment2DOperations>(segment: &L, t: L::Scalar) -> (clipped: Option<L>)
    ensures
        clipped == clipped_min(*segment, t),
{
    if L::precedes(segment.t_min(), t) {
        Some(L::new(&segment.to_ray(), t, segment.t_max()))
    } else {
        None
    }
}

/// Moves the end of `segment` back to `t`. Returns `None` where `t` does
/// not lie strictly before the end.
pub fn clip_max<L: LineSegment2DOperations>(segment: &L, t: L::Scalar) -> (clipped: Option<L>)
    ensures
        clipped == clipped_max(*segment, t),
{
    if L::precedes(t, segment.t_max()) {
        Some(L::new(&segment.to_ray(), segment.t_min(), t))
    } else {
        None
    }
}

/// Merges bounds of `segment` that are closer than the tolerance into
/// their mean. Returns `None` where the end then lies strictly before the
/// start: the interval is inverted and holds nothing.
pub fn settle<L: LineSegment2DOperations>(segment: &L) -> (result: Option<L>)
    ensures
        result == settled(*segment),
{
    let mut min_bound = segment.t_min();
    let mut max_bound = segment.t_max();
    if L::nearly_equal(min_bound, max_bound) {
        let middle = L::mean(min_bound, max_bound);
        min_bound = middle;
        max_bound = middle;
    }
    if L::precedes(max_bound, min_bound) {
        None
    } else {
        Some(L::new(&segment.to_ray(), min_bound, max_bound))
    }
}

/// A bound that is moved is moved to the parameter given, and the other
/// bound and the line are kept: what is left is made of the line of the
/// segment, the new bound and the old other bound.
pub proof fn lemma_clipping_keeps_the_other_bound<L: LineSegment2DOperations>(
    segment: L,
    t: L::Scalar,
)
    ensures
        clipped_min(segment, t) matches Some(clipped) ==> clipped == L::spec_new(
            &segment.spec_to_ray(),
            t,
            segment.spec_t_max(),
        ) && L::spec_precedes(segment.spec_t_min(), t),
        clipped_max(segment, t) matches Some(clipped) ==> clipped == L::spec_new(
            &segment.spec_to_ray(),
            segment.spec_t_min(),
            t,
        ) && L::spec_precedes(t, segment.spec_t_max()),
{
}

/// Settling gives nothing exactly where the interval is inverted after the
/// merge, and merges exactly the bounds that are closer than the
/// tolerance.
pub proof fn lemma_settling_rejects_inverted_intervals<L: LineSegment2DOperations>(segment: L)
    ensures
        settled(segment) is None <==> L::spec_precedes(
            merged_bounds(segment).1,
            merged_bounds(segment).0,
        ),
        L::spec_nearly_equal(segment.spec_t_min(), segment.spec_t_max()) ==> merged_bounds(
            segment,
        ).0 == merged_bounds(segment).1,
        !L::spec_nearly_equal(segment.spec_t_min(), segment.spec_t_max()) ==> merged_bounds(segment)
            == (segment.spec_t_min(), segment.spec_t_max()),
{
}

} // verus!
