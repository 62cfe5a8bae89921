//! Hyperplanes of four-dimensional space: as constraints on a velocity
//! with slack, and as what cuts a four-dimensional solid into a solid of
//! space.

use vstd::prelude::*;
use crate::plane::{PlaneIntersecion, PlaneOperations};
use crate::points::{Vec3Operations, Vec4Operations};

verus! {

/// Operations of a hyperplane: the half-space on one side of it is where
/// a velocity is allowed, `contains` being the test, and the hyperplane
/// itself carries spatial coordinates.
///
/// Every method promises only that its result is the value of the
/// specification function of the same name.
pub trait HyperplaneOperations: Vec4Operations + Sized {
    /// A point of the hyperplane in the hyperplane's own coordinates.
    type Point3: Copy;

    /// What another hyperplane's half-space leaves of this hyperplane.
    type Plane: PlaneOperations<Hyperplane = Self, Point = Self::Point3>;

    /// The spatial coordinates of the point of the hyperplane below `p`.
    spec fn spec_project_3d(&self, p: Self::Point) -> Self::Point3;

    /// The point of four-dimensional space with the spatial coordinates
    /// `p`.
    spec fn spec_project_4d(&self, p: Self::Point3) -> Self::Point;

    /// Returns the point in the hyperplane's own coordinates.
    fn project_3d(&self, p: Self::Point) -> (projected: Self::Point3)
        ensures
            projected == self.spec_project_3d(p),
    ;

    /// Returns the point of four-dimensional space that has the spatial
    /// coordinates `p`.
    fn project_4d(&self, p: Self::Point3) -> (lifted: Self::Point)
        ensures
            lifted == self.spec_project_4d(p),
    ;
}

/// What a hyperplane can cut out of a four-dimensional solid: a solid of
/// space that a plane can cut in turn.
pub trait HyperplaneIntersecionShape: Vec3Operations + PlaneIntersecion {

}

impl<T> HyperplaneIntersecionShape for T where T: Vec3Operations + PlaneIntersecion {

}

/// A four-dimensional solid that a hyperplane can cut.
///
/// `intersect` promises only that its result is `spec_intersect` of the
/// solid and the hyperplane.
pub trait HyperplaneIntersection {
    /// The cutting hyperplane.
    type Hyperplane;

    /// The solid that is cut out, in the hyperplane's coordinates.
    type Section: HyperplaneIntersecionShape;

    /// What `plane` cuts out of the solid.
    spec fn spec_intersect(&self, plane: &Self::Hyperplane) -> Option<Self::Section>;

    /// Cuts the solid with `plane`. Returns `None` where they do not meet.
    fn intersect(&self, plane: &Self::Hyperplane) -> (section: Option<Self::Section>)
        ensures
            section == self.spec_intersect(plane),
    ;
}

} // verus!
