//! Spheres as what cuts a solid.

use vstd::prelude::*;
use crate::points::Vec3Operations;

verus! {

/// A shape of space that the intersection with a sphere can yield.
pub trait SphereIntersectionShape: Vec3Operations {

}

impl<T> SphereIntersectionShape for T where T: Vec3Operations {

}

/// A solid that a sphere can cut.
///
/// `intersect` promises only that its result is `spec_intersect` of the
/// solid and the sphere.
pub trait SphereIntersection {
    /// The cutting sphere.
    type Sphere;

    /// The shape that the two surfaces have in common.
    type Section: SphereIntersectionShape;

    /// What the surface of `sphere` has in common with that of the solid.
    spec fn spec_intersect(&self, sphere: &Self::Sphere) -> Option<Self::Section>;

    /// Intersects the surface of the solid with that of `sphere`. Returns
    /// `None` where the surfaces do not meet, be it that the solids lie
    /// apart or that one lies inside the other.
    fn intersect(&self, sphere: &Self::Sphere) -> (section: Option<Self::Section>)
        ensures
            section == self.spec_intersect(sphere),
    ;
}

} // verus!
