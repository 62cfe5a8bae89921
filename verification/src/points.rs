//! The queries every shape answers about a point of its own space.
//!
//! The crate never looks inside a point or a scalar: both are associated
//! types, so the same solver works for any coordinate representation. What a
//! query returns is therefore known to the verifier only by name. Each
//! executable method is paired with a specification function and promises
//! nothing but that its result is the value of that function, that is, that
//! the answer depends on the shape and the point alone.

use vstd::prelude::*;

verus! {

/// Operations of a shape that lives in the plane.
pub trait Vec2Operations {
    /// A point, or a vector, of the plane.
    type Point: Copy;

    /// A signed length.
    type Scalar: Copy;

    /// Whether `pt` is inside the shape.
    spec fn spec_contains(&self, pt: Self::Point) -> bool;

    /// The point of the shape that stands for `pt`.
    spec fn spec_constrain(&self, pt: Self::Point) -> Self::Point;

    /// The nearest surface point and the outward normal there.
    spec fn spec_closest_point_and_normal(&self, pt: Self::Point) -> (Self::Point, Self::Point);

    /// The signed distance from `pt` to the surface.
    spec fn spec_signed_distance(&self, pt: Self::Point) -> Self::Scalar;

    /// Returns true if the point is inside the shape.
    fn contains(&self, pt: Self::Point) -> (inside: bool)
        ensures
            inside == self.spec_contains(pt),
    ;

    /// Constrains a point to the shape: a point outside is projected onto
    /// the shape, a point inside is returned as it is.
    fn constrain(&self, pt: Self::Point) -> (constrained: Self::Point)
        ensures
            constrained == self.spec_constrain(pt),
    ;

    /// Returns the closest point on the surface of the shape and the normal,
    /// pointing away from the shape, at that point.
    fn closest_point_and_normal(&self, pt: Self::Point) -> (closest: (Self::Point, Self::Point))
        ensures
            closest == self.spec_closest_point_and_normal(pt),
    ;

    /// Returns the signed distance from the point to the shape: negative
    /// inside, zero on the surface, positive outside.
    fn signed_distance(&self, pt: Self::Point) -> (distance: Self::Scalar)
        ensures
            distance == self.spec_signed_distance(pt),
    ;
}

/// Operations of a shape that lives in three-dimensional space.
pub trait Vec3Operations {
    /// A point, or a vector, of space.
    type Point: Copy;

    /// A signed length.
    type Scalar: Copy;

    /// Whether `pt` is inside the shape.
    spec fn spec_contains(&self, pt: Self::Point) -> bool;

    /// The point of the shape that stands for `pt`.
    spec fn spec_constrain(&self, pt: Self::Point) -> Self::Point;

    /// The nearest surface point and the outward normal there.
    spec fn spec_closest_point_and_normal(&self, pt: Self::Point) -> (Self::Point, Self::Point);

    /// The signed distance from `pt` to the surface.
    spec fn spec_signed_distance(&self, pt: Self::Point) -> Self::Scalar;

    /// Returns true if the point is inside the shape.
    fn contains(&self, pt: Self::Point) -> (inside: bool)
        ensures
            inside == self.spec_contains(pt),
    ;

    /// Constrains a point to the shape: a point outside is projected onto
    /// the shape, a point inside is returned as it is.
    fn constrain(&self, pt: Self::Point) -> (constrained: Self::Point)
        ensures
            constrained == self.spec_constrain(pt),
    ;

    /// Returns the closest point on the surface of the shape and the normal,
    /// pointing away from the shape, at that point.
    fn closest_point_and_normal(&self, pt: Self::Point) -> (closest: (Self::Point, Self::Point))
        ensures
            closest == self.spec_closest_point_and_normal(pt),
    ;

    /// Returns the signed distance from the point to the shape: negative
    /// inside, zero on the surface, positive outside.
    fn signed_distance(&self, pt: Self::Point) -> (distance: Self::Scalar)
        ensures
            distance == self.spec_signed_distance(pt),
    ;
}

/// Operations of a shape that lives in four-dimensional space.
pub trait Vec4Operations {
    /// A point, or a vector, of four-dimensional space.
    type Point: Copy;

    /// A signed length.
    type Scalar: Copy;

    /// Whether `pt` is inside the shape.
    spec fn spec_contains(&self, pt: Self::Point) -> bool;

    /// The point of the shape that stands for `pt`.
    spec fn spec_constrain(&self, pt: Self::Point) -> Self::Point;

    /// The signed distance from `pt` to the surface.
    spec fn spec_signed_distance(&self, pt: Self::Point) -> Self::Scalar;

    /// Returns true if the point is inside the shape.
    fn contains(&self, pt: Self::Point) -> (inside: bool)
        ensures
            inside == self.spec_contains(pt),
    ;

    /// Constrains a point to the shape: a point outside is projected onto
    /// the shape, a point inside is returned as it is.
    fn constrain(&self, pt: Self::Point) -> (constrained: Self::Point)
        ensures
            constrained == self.spec_constrain(pt),
    ;

    /// Returns the signed distance from the point to the shape: negative
    /// inside, zero on the surface, positive outside.
    fn signed_distance(&self, pt: Self::Point) -> (distance: Self::Scalar)
        ensures
            distance == self.spec_signed_distance(pt),
    ;
}

/// Whether constraining a point to `shape` a second time changes nothing,
/// for every point of the plane.
pub open spec fn constrain_is_idempotent_2d<S: Vec2Operations>(shape: S) -> bool {
    forall|pt: S::Point| #[trigger]
        shape.spec_constrain(shape.spec_constrain(pt)) == shape.spec_constrain(pt)
}

/// Whether constraining a point to `shape` a second time changes nothing,
/// for every point of space.
pub open spec fn constrain_is_idempotent_3d<S: Vec3Operations>(shape: S) -> bool {
    forall|pt: S::Point| #[trigger]
        shape.spec_constrain(shape.spec_constrain(pt)) == shape.spec_constrain(pt)
}

/// Whether constraining a point to `shape` a second time changes nothing,
/// for every point of four-dimensional space.
pub open spec fn constrain_is_idempotent_4d<S: Vec4Operations>(shape: S) -> bool {
    forall|pt: S::Point| #[trigger]
        shape.spec_constrain(shape.spec_constrain(pt)) == shape.spec_constrain(pt)
}

} // verus!
