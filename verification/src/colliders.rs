//! The shape of an agent: one of a closed set of solids.

use vstd::prelude::*;
use crate::points::{constrain_is_idempotent_3d, Vec3Operations};

verus! {

/// The solid that an agent takes up: a sphere or an axis-aligned box.
///
/// A collider answers every query as the solid that it holds does.
#[derive(Clone, Debug)]
pub enum Collider<S, A> {
    /// A sphere.
    Sphere(S),
    /// An axis-aligned bounding box.
    Aabb(A),
}

impl<S, A> Vec3Operations for Collider<S, A> where
    S: Vec3Operations,
    A: Vec3Operations<Point = S::Point, Scalar = S::Scalar>,
 {
    type Point = S::Point;

    type Scalar = S::Scalar;

    open spec fn spec_contains(&self, pt: Self::Point) -> bool {
        match self {
            Collider::Sphere(sphere) => sphere.spec_contains(pt),
            Collider::Aabb(aabb) => aabb.spec_contains(pt),
        }
    }

    open spec fn spec_constrain(&self, pt: Self::Point) -> Self::Point {
        match self {
            Collider::Sphere(sphere) => sphere.spec_constrain(pt),
            Collider::Aabb(aabb) => aabb.spec_constrain(pt),
        }
    }

    open spec fn spec_closest_point_and_normal(&self, pt: Self::Point) -> (
        Self::Point,
        Self::Point,
    ) {
        match self {
            Collider::Sphere(sphere) => sphere.spec_closest_point_and_normal(pt),
            Collider::Aabb(aabb) => aabb.spec_closest_point_and_normal(pt),
        }
    }

    open spec fn spec_signed_distance(&self, pt: Self::Point) -> Self::Scalar {
        match self {
            Collider::Sphere(sphere) => sphere.spec_signed_distance(pt),
            Collider::Aabb(aabb) => aabb.spec_signed_distance(pt),
        }
    }

    fn contains(&self, pt: Self::Point) -> (inside: bool) {
        match self {
            Collider::Sphere(sphere) => sphere.contains(pt),
            Collider::Aabb(aabb) => aabb.contains(pt),
        }
    }

    fn constrain(&self, pt: Self::Point) -> (constrained: Self::Point) {
        match self {
            Collider::Sphere(sphere) => sphere.constrain(pt),
            Collider::Aabb(aabb) => aabb.constrain(pt),
        }
    }

    fn closest_point_and_normal(&self, pt: Self::Point) -> (closest: (Self::Point, Self::Point)) {
        match self {
            Collider::Sphere(sphere) => sphere.closest_point_and_normal(pt),
            Collider::Aabb(aabb) => aabb.closest_point_and_normal(pt),
        }
    }

    fn signed_distance(&self, pt: Self::Point) -> (distance: Self::Scalar) {
        match self {
            Collider::Sphere(sphere) => sphere.signed_distance(pt),
            Collider::Aabb(aabb) => aabb.signed_distance(pt),
        }
    }
}

/// Containment is idempotent for a collider where it is for the solid that
/// the collider holds.
pub proof fn lemma_collider_constrain_is_idempotent<S, A>(collider: Collider<S, A>) where
    S: Vec3Operations,
    A: Vec3Operations<Point = S::Point, Scalar = S::Scalar>,

    requires
        match collider {
            Collider::Sphere(sphere) => constrain_is_idempotent_3d(sphere),
            Collider::Aabb(aabb) => constrain_is_idempotent_3d(aabb),
        },
    ensures
        constrain_is_idempotent_3d(collider),
{
    assert forall|pt: S::Point| #[trigger]
        collider.spec_constrain(collider.spec_constrain(pt)) == collider.spec_constrain(pt) by {
        match collider {
            Collider::Sphere(sphere) => {
                assert(sphere.spec_constrain(sphere.spec_constrain(pt)) == sphere.spec_constrain(
                    pt,
                ));
            },
            Collider::Aabb(aabb) => {
                assert(aabb.spec_constrain(aabb.spec_constrain(pt)) == aabb.spec_constrain(pt));
            },
        }
    }
}

} // verus!
