//! Cutting a planar shape with a line.

use vstd::prelude::*;
use crate::line_segment_2d::LineSegment2DOperations;

verus! {

/// What a line has in common with a shape, told along the line: the
/// intersection point is the line's origin plus its direction times the
/// parameter.
pub enum Ray2DIntersectionResult<S, L> {
    /// No intersection.
    Empty,
    /// One intersection, at the parameter given.
    Point(S),
    /// A whole stretch of the line, with its two bounding parameters.
    LineSegment(L),
}

/// A planar shape that can be intersected by a line.
///
/// `intersect` promises only that its result is `spec_intersect` of the
/// shape and the line.
pub trait Ray2DIntersection {
    /// A line given by a point and a direction.
    type Ray;

    /// A position along a line.
    type Parameter: Copy;

    /// A stretch of a line.
    type Segment: LineSegment2DOperations<Scalar = Self::Parameter>;

    /// Where `ray` meets the shape.
    spec fn spec_intersect(&self, ray: &Self::Ray) -> Ray2DIntersectionResult<
        Self::Parameter,
        Self::Segment,
    >;

    /// Intersects the shape with `ray`.
    fn intersect(&self, ray: &Self::Ray) -> (hit: Ray2DIntersectionResult<
        Self::Parameter,
        Self::Segment,
    >)
        ensures
            hit == self.spec_intersect(ray),
    ;
}

} // verus!
