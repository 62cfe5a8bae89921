//! Half-planes as constraints on a planar velocity.

use vstd::prelude::*;
use crate::line_segment_2d::LineSegment2DOperations;
use crate::points::Vec2Operations;
use crate::ray_2d::Ray2DIntersection;

verus! {

/// Operations of a half-plane: the side of a line on which a velocity is
/// allowed, `contains` being the test.
///
/// Every method promises only that its result is the value of the
/// specification function of the same name.
pub trait HalfPlaneOperations: Vec2Operations + Sized {
    /// The plane of space whose boundary carries the half-plane.
    type Plane;

    /// The boundary line, with a point on it and its direction.
    type Ray: Ray2DIntersection<Ray = Self::Ray, Parameter = Self::Scalar>;

    /// A stretch of a boundary line.
    type Segment: LineSegment2DOperations<
        Ray = Self::Ray,
        Point = Self::Point,
        Scalar = Self::Scalar,
    >;

    /// What the half-space of `other` leaves of the boundary of `plane`.
    spec fn spec_from_plane_intersection(plane: &Self::Plane, other: &Self::Plane) -> Option<Self>;

    /// The line that bounds the half-plane.
    spec fn spec_boundary(&self) -> Self::Ray;

    /// Intersects the half-space of `other` with the boundary of `plane`
    /// and returns it in the coordinates of `plane`. Returns `None` where
    /// the two planes are parallel.
    fn from_plane_intersection(plane: &Self::Plane, other: &Self::Plane) -> (half_plane: Option<
        Self,
    >)
        ensures
            half_plane == Self::spec_from_plane_intersection(plane, other),
    ;

    /// Returns the line that bounds the half-plane.
    fn boundary(&self) -> (line: Self::Ray)
        ensures
            line == self.spec_boundary(),
    ;
}

} // verus!
