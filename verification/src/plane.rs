//! Planes of space: as constraints on a velocity, and as what cuts a solid
//! into a planar shape.

use vstd::prelude::*;
use crate::half_plane::HalfPlaneOperations;
use crate::points::{Vec2Operations, Vec3Operations};
use crate::ray_2d::Ray2DIntersection;

verus! {

/// Operations of a plane: the half-space on one side of it is where a
/// velocity is allowed, `contains` being the test, and the plane itself
/// carries planar coordinates.
///
/// Every method promises only that its result is the value of the
/// specification function of the same name.
pub trait PlaneOperations: Vec3Operations + Sized {
    /// A point of the plane in the plane's own coordinates.
    type Point2: Copy;

    /// The hyperplane of four-dimensional space whose boundary carries the
    /// plane.
    type Hyperplane;

    /// What another plane's half-space leaves of this plane.
    type HalfPlane: HalfPlaneOperations<Plane = Self, Point = Self::Point2>;

    /// What the half-space of `other` leaves of the boundary of `plane`.
    spec fn spec_from_hyperplane_intersection(
        plane: &Self::Hyperplane,
        other: &Self::Hyperplane,
    ) -> Option<Self>;

    /// The planar coordinates of the point of the plane below `p`.
    spec fn spec_project_2d(&self, p: Self::Point) -> Self::Point2;

    /// The point of space with the planar coordinates `p`.
    spec fn spec_project_3d(&self, p: Self::Point2) -> Self::Point;

    /// Intersects the half-space of `other` with the boundary of `plane`
    /// and returns it in the coordinates of `plane`. Returns `None` where
    /// the two hyperplanes are parallel.
    fn from_hyperplane_intersection(plane: &Self::Hyperplane, other: &Self::Hyperplane) -> (section:
        Option<Self>)
        ensures
            section == Self::spec_from_hyperplane_intersection(plane, other),
    ;

    /// Returns the point in the plane's own coordinates.
    fn project_2d(&self, p: Self::Point) -> (projected: Self::Point2)
        ensures
            projected == self.spec_project_2d(p),
    ;

    /// Returns the point of space that has the planar coordinates `p`.
    fn project_3d(&self, p: Self::Point2) -> (lifted: Self::Point)
        ensures
            lifted == self.spec_project_3d(p),
    ;
}

/// What a plane can cut out of a solid: a planar shape that a line can
/// intersect in turn.
pub trait PlaneIntersecionShape: Vec2Operations + Ray2DIntersection {

}

impl<T> PlaneIntersecionShape for T where T: Vec2Operations + Ray2DIntersection {

}

/// A solid that a plane can cut.
///
/// `intersect` promises only that its result is `spec_intersect` of the
/// solid and the plane.
pub trait PlaneIntersecion {
    /// The cutting plane.
    type Plane;

    /// The planar shape that is cut out, in the plane's coordinates.
    type Section: PlaneIntersecionShape;

    /// What `plane` cuts out of the solid.
    spec fn spec_intersect(&self, plane: &Self::Plane) -> Option<Self::Section>;

    /// Cuts the solid with `plane`. Returns `None` where they do not meet.
    fn intersect(&self, plane: &Self::Plane) -> (section: Option<Self::Section>)
        ensures
            section == self.spec_intersect(plane),
    ;
}

} // verus!
