//! The top level of the cascade: the velocity nearest to the preferred one
//! inside a four-dimensional bounding solid and a list of half-spaces.
//!
//! It proceeds as the spatial level does, one dimension up: a hyperplane
//! that the velocity found so far violates is cut with the bounding solid
//! and with every earlier half-space, and the spatial problem they make is
//! solved in the hyperplane's own coordinates. An earlier hyperplane that is
//! parallel to it is asked whether it holds the point of the hyperplane
//! nearest to the velocity; where it does not, the problem is infeasible.

use vstd::prelude::*;
use crate::half_plane::HalfPlaneOperations;
use crate::hyperplane::{HyperplaneIntersection, HyperplaneOperations};
use crate::plane::PlaneOperations;
use crate::points::{
    constrain_is_idempotent_4d,
    Vec2Operations,
    Vec3Operations,
    Vec4Operations,
};
use crate::solver_2d::MaximumVelocityShape2D;
use crate::solver_3d::{
    bounds_are_idempotent_3d,
    geometry_is_exact_3d,
    incremental_optimization_3d,
    lemma_feasible_velocity_satisfies_every_plane,
    lemma_velocity_found_is_in_bounds_3d,
    optimum_3d,
    velocity_of_3d,
    MaximumVelocityShape3D,
    OptimizationResult3D,
};

verus! {

/// The outcome of the four-dimensional optimization.
#[derive(Debug)]
pub enum OptimizationResult4D<V> {
    /// Every hyperplane is satisfied by `optimal_velocity`.
    Feasible { optimal_velocity: V },
    /// Some hyperplane could not be satisfied; `last_optimal_velocity` is
    /// the velocity that had been reached when this was found.
    Infeasible { last_optimal_velocity: V },
}

/// A four-dimensional solid that bounds the velocity: it can pull a
/// velocity into itself and be cut by a hyperplane into a bounding solid
/// of space.
pub trait MaximumVelocityShape4D {
    /// A velocity in four-dimensional space.
    type Velocity: Copy;

    /// The cutting hyperplane.
    type Hyperplane;

    /// The bounding solid that a hyperplane cuts out.
    type Section: MaximumVelocityShape3D;

    /// The velocity of the solid that stands for `velocity`.
    spec fn spec_constrain(&self, velocity: Self::Velocity) -> Self::Velocity;

    /// What `plane` cuts out of the solid.
    spec fn spec_project_on_hyperplane(&self, plane: &Self::Hyperplane) -> Option<Self::Section>;

    /// Constrains a velocity to the solid.
    fn constrain(&self, velocity: Self::Velocity) -> (constrained: Self::Velocity)
        ensures
            constrained == self.spec_constrain(velocity),
    ;

    /// Cuts the solid with `plane`. Returns `None` where they do not meet.
    fn project_on_hyperplane(&self, plane: &Self::Hyperplane) -> (section: Option<Self::Section>)
        ensures
            section == self.spec_project_on_hyperplane(plane),
    ;
}

/// Every four-dimensional solid that a hyperplane can cut bounds
/// velocities.
impl<T> MaximumVelocityShape4D for T where T: Vec4Operations + HyperplaneIntersection {
    type Velocity = <T as Vec4Operations>::Point;

    type Hyperplane = <T as HyperplaneIntersection>::Hyperplane;

    type Section = <T as HyperplaneIntersection>::Section;

    open spec fn spec_constrain(&self, velocity: Self::Velocity) -> Self::Velocity {
        Vec4Operations::spec_constrain(self, velocity)
    }

    open spec fn spec_project_on_hyperplane(&self, plane: &Self::Hyperplane) -> Option<
        Self::Section,
    > {
        self.spec_intersect(plane)
    }

    fn constrain(&self, velocity: Self::Velocity) -> (constrained: Self::Velocity) {
        Vec4Operations::constrain(self, velocity)
    }

    fn project_on_hyperplane(&self, plane: &Self::Hyperplane) -> (section: Option<Self::Section>) {
        self.intersect(plane)
    }
}

/// The planes that the first `n` of `hyperplanes` leave on the boundary of
/// `hyperplane`, in order; a hyperplane parallel to `hyperplane` leaves
/// none.
pub open spec fn planes_on<H: HyperplaneOperations>(
    hyperplane: H,
    hyperplanes: Seq<H>,
    n: nat,
) -> Seq<H::Plane>
    decreases n,
{
    if n == 0 {
        Seq::empty()
    } else {
        let before = planes_on(hyperplane, hyperplanes, (n - 1) as nat);
        match H::Plane::spec_from_hyperplane_intersection(&hyperplane, &hyperplanes[n - 1]) {
            Some(plane) => before.push(plane),
            None => before,
        }
    }
}

/// Whether the hyperplanes among the first `n` that are parallel to
/// `hyperplane`, and so leave no plane on its boundary, contain `point`, a
/// point of that boundary. One that does not contains no point of the
/// boundary at all.
pub open spec fn parallel_hyperplanes_allow<H: HyperplaneOperations>(
    hyperplane: H,
    hyperplanes: Seq<H>,
    n: nat,
    point: H::Point,
) -> bool {
    forall|j: int|
        0 <= j < n ==> (#[trigger] H::Plane::spec_from_hyperplane_intersection(
            &hyperplane,
            &hyperplanes[j],
        ) is None ==> hyperplanes[j].spec_contains(point))
}

/// The velocity on hyperplane `i` that is nearest to `velocity` among
/// those inside `shape` that the hyperplanes before `i` allow, if there is
/// one.
///
/// There is none where `shape` does not reach the hyperplane, where an
/// earlier hyperplane that is parallel to the hyperplane excludes it, or
/// where the spatial problem on the hyperplane is infeasible.
pub open spec fn nearest_on_boundary_4d<B, H>(
    shape: B,
    hyperplanes: Seq<H>,
    i: int,
    velocity: H::Point,
) -> Option<H::Point> where
    H: HyperplaneOperations,
    B: MaximumVelocityShape4D<Velocity = H::Point, Hyperplane = H>,
    B::Section: MaximumVelocityShape3D<Velocity = H::Point3, Plane = H::Plane>,
    <B::Section as MaximumVelocityShape3D>::Section: MaximumVelocityShape2D<
        Velocity = <H::Plane as PlaneOperations>::Point2,
        Scalar = <<H::Plane as PlaneOperations>::HalfPlane as Vec2Operations>::Scalar,
        Ray = <<H::Plane as PlaneOperations>::HalfPlane as HalfPlaneOperations>::Ray,
    >,
 {
    let hyperplane = hyperplanes[i];
    match shape.spec_project_on_hyperplane(&hyperplane) {
        Some(shape_3d) => {
            let on_boundary = hyperplane.spec_constrain(velocity);
            if parallel_hyperplanes_allow(hyperplane, hyperplanes, i as nat, on_boundary) {
                match optimum_3d(
                    hyperplane.spec_project_3d(on_boundary),
                    shape_3d,
                    planes_on(hyperplane, hyperplanes, i as nat),
                ) {
                    OptimizationResult3D::Feasible { optimal_velocity } => Some(
                        hyperplane.spec_project_4d(optimal_velocity),
                    ),
                    OptimizationResult3D::Infeasible { .. } => None,
                }
            } else {
                None
            }
        },
        None => None,
    }
}

/// The state of the optimization after the first `n` hyperplanes, started
/// from the velocity `start`.
pub open spec fn optimum_4d_after<B, H>(
    shape: B,
    hyperplanes: Seq<H>,
    start: H::Point,
    n: nat,
) -> OptimizationResult4D<H::Point> where
    H: HyperplaneOperations,
    B: MaximumVelocityShape4D<Velocity = H::Point, Hyperplane = H>,
    B::Section: MaximumVelocityShape3D<Velocity = H::Point3, Plane = H::Plane>,
    <B::Section as MaximumVelocityShape3D>::Section: MaximumVelocityShape2D<
        Velocity = <H::Plane as PlaneOperations>::Point2,
        Scalar = <<H::Plane as PlaneOperations>::HalfPlane as Vec2Operations>::Scalar,
        Ray = <<H::Plane as PlaneOperations>::HalfPlane as HalfPlaneOperations>::Ray,
    >,

    decreases n,
{
    if n == 0 {
        OptimizationResult4D::Feasible { optimal_velocity: start }
    } else {
        match optimum_4d_after(shape, hyperplanes, start, (n - 1) as nat) {
            OptimizationResult4D::Feasible { optimal_velocity } => {
                if hyperplanes[n - 1].spec_contains(optimal_velocity) {
                    OptimizationResult4D::Feasible { optimal_velocity }
                } else {
                    match nearest_on_boundary_4d(shape, hyperplanes, n - 1, optimal_velocity) {
                        Some(moved) => OptimizationResult4D::Feasible { optimal_velocity: moved },
                        None => OptimizationResult4D::Infeasible {
                            last_optimal_velocity: optimal_velocity,
                        },
                    }
                }
            },
            infeasible => infeasible,
        }
    }
}

/// The outcome of the four-dimensional optimization: the state after all
/// the hyperplanes, started from the preferred velocity constrained to
/// `shape`.
pub open spec fn optimum_4d<B, H>(
    preferred_velocity: H::Point,
    shape: B,
    hyperplanes: Seq<H>,
) -> OptimizationResult4D<H::Point> where
    H: HyperplaneOperations,
    B: MaximumVelocityShape4D<Velocity = H::Point, Hyperplane = H>,
    B::Section: MaximumVelocityShape3D<Velocity = H::Point3, Plane = H::Plane>,
    <B::Section as MaximumVelocityShape3D>::Section: MaximumVelocityShape2D<
        Velocity = <H::Plane as PlaneOperations>::Point2,
        Scalar = <<H::Plane as PlaneOperations>::HalfPlane as Vec2Operations>::Scalar,
        Ray = <<H::Plane as PlaneOperations>::HalfPlane as HalfPlaneOperations>::Ray,
    >,
 {
    optimum_4d_after(
        shape,
        hyperplanes,
        shape.spec_constrain(preferred_velocity),
        hyperplanes.len(),
    )
}

/// Once the optimization is infeasible it stays so, with the same velocity.
pub proof fn lemma_infeasible_stays_4d<B, H>(
    shape: B,
    hyperplanes: Seq<H>,
    start: H::Point,
    n: nat,
    m: nat,
) where
    H: HyperplaneOperations,
    B: MaximumVelocityShape4D<Velocity = H::Point, Hyperplane = H>,
    B::Section: MaximumVelocityShape3D<Velocity = H::Point3, Plane = H::Plane>,
    <B::Section as MaximumVelocityShape3D>::Section: MaximumVelocityShape2D<
        Velocity = <H::Plane as PlaneOperations>::Point2,
        Scalar = <<H::Plane as PlaneOperations>::HalfPlane as Vec2Operations>::Scalar,
        Ray = <<H::Plane as PlaneOperations>::HalfPlane as HalfPlaneOperations>::Ray,
    >,

    requires
        n <= m,
        optimum_4d_after(shape, hyperplanes, start, n) is Infeasible,
    ensures
        optimum_4d_after(shape, hyperplanes, start, m) == optimum_4d_after(
            shape,
            hyperplanes,
            start,
            n,
        ),
    decreases m,
{
    if n < m {
        lemma_infeasible_stays_4d(shape, hyperplanes, start, n, (m - 1) as nat);
    }
}

/// Finds the velocity nearest to `preferred_velocity` inside
/// `bounding_shape` and the half-spaces of all of `hyperplanes`, taking the
/// hyperplanes in the order given.
///
/// The result is exactly `optimum_4d`: `Feasible` with the velocity found,
/// or `Infeasible`, as soon as one hyperplane cannot be met, with the
/// velocity reached until then.
pub fn incremental_optimization_4d<B, H>(
    preferred_velocity: H::Point,
    bounding_shape: &B,
    hyperplanes: &[H],
) -> (result: OptimizationResult4D<H::Point>) where
    H: HyperplaneOperations,
    B: MaximumVelocityShape4D<Velocity = H::Point, Hyperplane = H>,
    B::Section: MaximumVelocityShape3D<Velocity = H::Point3, Plane = H::Plane>,
    <B::Section as MaximumVelocityShape3D>::Section: MaximumVelocityShape2D<
        Velocity = <H::Plane as PlaneOperations>::Point2,
        Scalar = <<H::Plane as PlaneOperations>::HalfPlane as Vec2Operations>::Scalar,
        Ray = <<H::Plane as PlaneOperations>::HalfPlane as HalfPlaneOperations>::Ray,
    >,

    ensures
        result == optimum_4d(preferred_velocity, *bounding_shape, hyperplanes@),
{
    let ghost start = bounding_shape.spec_constrain(preferred_velocity);
    let mut optimal_velocity = bounding_shape.constrain(preferred_velocity);
    let mut i: usize = 0;
    while i < hyperplanes.len()
        invariant
            i <= hyperplanes.len(),
            optimum_4d_after(*bounding_shape, hyperplanes@, start, i as nat)
                == (OptimizationResult4D::Feasible { optimal_velocity }),
            start == bounding_shape.spec_constrain(preferred_velocity),
        ensures
            i == hyperplanes.len(),
        decreases hyperplanes.len() - i,
    {
        let hyperplane = &hyperplanes[i];
        if !hyperplane.contains(optimal_velocity) {
            // The new velocity lies on this hyperplane: the spatial problem that
            // the bounding shape and the earlier hyperplanes leave there decides
            // where.
            let moved = match bounding_shape.project_on_hyperplane(hyperplane) {
                Some(bounding_shape_3d) => {
                    let on_boundary = Vec4Operations::constrain(hyperplane, optimal_velocity);
                    let mut planes: Vec<H::Plane> = Vec::new();
                    let mut parallel_hyperplanes_agree = true;
                    let mut j: usize = 0;
                    while j < i && parallel_hyperplanes_agree
                        invariant
                            j <= i,
                            i < hyperplanes.len(),
                            *hyperplane == hyperplanes@[i as int],
                            parallel_hyperplanes_agree ==> parallel_hyperplanes_allow(
                                *hyperplane,
                                hyperplanes@,
                                j as nat,
                                on_boundary,
                            ) && planes@ == planes_on(*hyperplane, hyperplanes@, j as nat),
                            !parallel_hyperplanes_agree ==> !parallel_hyperplanes_allow(
                                *hyperplane,
                                hyperplanes@,
                                i as nat,
                                on_boundary,
                            ),
                        decreases i - j,
                    {
                        match H::Plane::from_hyperplane_intersection(hyperplane, &hyperplanes[j]) {
                            Some(plane) => {
                                planes.push(plane);
                            },
                            None => {
                                // A parallel hyperplane leaves nothing to cut the
                                // boundary with: it holds all of it or none of it.
                                if !hyperplanes[j].contains(on_boundary) {
                                    parallel_hyperplanes_agree = false;
                                }
                            },
                        }
                        j += 1;
                    }
                    if parallel_hyperplanes_agree {
                        match incremental_optimization_3d(
                            hyperplane.project_3d(on_boundary),
                            &bounding_shape_3d,
                            planes.as_slice(),
                        ) {
                            OptimizationResult3D::Feasible { optimal_velocity: on_hyperplane } => Some(
                                hyperplane.project_4d(on_hyperplane),
                            ),
                            OptimizationResult3D::Infeasible { .. } => None,
                        }
                    } else {
                        None
                    }
                },
                None => None,
            };
            assert(moved == nearest_on_boundary_4d(
                *bounding_shape,
                hyperplanes@,
                i as int,
                optimal_velocity,
            ));
            match moved {
                Some(velocity) => {
                    optimal_velocity = velocity;
                },
                None => {
                    proof {
                        lemma_infeasible_stays_4d(
                            *bounding_shape,
                            hyperplanes@,
                            start,
                            (i + 1) as nat,
                            hyperplanes.len() as nat,
                        );
                    }
                    return OptimizationResult4D::Infeasible {
                        last_optimal_velocity: optimal_velocity,
                    };
                },
            }
        }
        i += 1;
    }
    OptimizationResult4D::Feasible { optimal_velocity }
}

/// Whether `velocity` satisfies the first `n` of `hyperplanes`.
pub open spec fn satisfies_first_4d<H: HyperplaneOperations>(
    hyperplanes: Seq<H>,
    n: int,
    velocity: H::Point,
) -> bool {
    forall|j: int|
        0 <= j < n && j < hyperplanes.len() ==> (#[trigger] hyperplanes[j]).spec_contains(velocity)
}

/// Whether `velocity` satisfies every one of `hyperplanes`: whether it lies
/// in the region that they leave feasible.
pub open spec fn satisfies_all_4d<H: HyperplaneOperations>(
    hyperplanes: Seq<H>,
    velocity: H::Point,
) -> bool {
    satisfies_first_4d(hyperplanes, hyperplanes.len() as int, velocity)
}

/// Whether the geometry keeps the promise that the method rests on: a
/// velocity that satisfies the hyperplanes before `i` but not hyperplane
/// `i`, when it is moved onto hyperplane `i`, satisfies hyperplane `i` and
/// still those before it.
pub open spec fn moves_are_sound_4d<B, H>(shape: B, hyperplanes: Seq<H>) -> bool where
    H: HyperplaneOperations,
    B: MaximumVelocityShape4D<Velocity = H::Point, Hyperplane = H>,
    B::Section: MaximumVelocityShape3D<Velocity = H::Point3, Plane = H::Plane>,
    <B::Section as MaximumVelocityShape3D>::Section: MaximumVelocityShape2D<
        Velocity = <H::Plane as PlaneOperations>::Point2,
        Scalar = <<H::Plane as PlaneOperations>::HalfPlane as Vec2Operations>::Scalar,
        Ray = <<H::Plane as PlaneOperations>::HalfPlane as HalfPlaneOperations>::Ray,
    >,
 {
    forall|i: int, velocity: H::Point|
        0 <= i < hyperplanes.len() && satisfies_first_4d(hyperplanes, i, velocity)
            && !hyperplanes[i].spec_contains(velocity) ==> match #[trigger] nearest_on_boundary_4d(
            shape,
            hyperplanes,
            i,
            velocity,
        ) {
            Some(moved) => satisfies_first_4d(hyperplanes, i + 1, moved),
            None => true,
        }
}

/// A further hyperplane can only shrink the feasible region or leave it as
/// it is: what satisfies the longer list satisfies the shorter one.
pub proof fn lemma_feasible_region_shrinks_4d<H: HyperplaneOperations>(
    hyperplanes: Seq<H>,
    added: H,
    velocity: H::Point,
)
    requires
        satisfies_all_4d(hyperplanes.push(added), velocity),
    ensures
        satisfies_all_4d(hyperplanes, velocity),
        added.spec_contains(velocity),
{
    let longer = hyperplanes.push(added);
    assert(longer[hyperplanes.len() as int] == added);
    assert forall|j: int| 0 <= j < hyperplanes.len() implies (
    #[trigger] hyperplanes[j]).spec_contains(velocity) by {
        assert(longer[j] == hyperplanes[j]);
    }
}

/// Hyperplanes that the velocity satisfies from the start do not move it:
/// where the preferred velocity, constrained to the bounding shape,
/// satisfies every hyperplane, it is the optimum.
pub proof fn lemma_unconstrained_optimum_4d<B, H>(
    preferred_velocity: H::Point,
    shape: B,
    hyperplanes: Seq<H>,
) where
    H: HyperplaneOperations,
    B: MaximumVelocityShape4D<Velocity = H::Point, Hyperplane = H>,
    B::Section: MaximumVelocityShape3D<Velocity = H::Point3, Plane = H::Plane>,
    <B::Section as MaximumVelocityShape3D>::Section: MaximumVelocityShape2D<
        Velocity = <H::Plane as PlaneOperations>::Point2,
        Scalar = <<H::Plane as PlaneOperations>::HalfPlane as Vec2Operations>::Scalar,
        Ray = <<H::Plane as PlaneOperations>::HalfPlane as HalfPlaneOperations>::Ray,
    >,
    requires
        satisfies_all_4d(hyperplanes, shape.spec_constrain(preferred_velocity)),
    ensures
        optimum_4d(preferred_velocity, shape, hyperplanes) == (OptimizationResult4D::Feasible {
            optimal_velocity: shape.spec_constrain(preferred_velocity),
        }),
{
    lemma_unconstrained_prefix_4d(
        shape,
        hyperplanes,
        shape.spec_constrain(preferred_velocity),
        hyperplanes.len(),
    );
}

/// The same, for the state after the first `n` constraints.
proof fn lemma_unconstrained_prefix_4d<B, H>(
    shape: B,
    hyperplanes: Seq<H>,
    start: H::Point,
    n: nat,
) where
    H: HyperplaneOperations,
    B: MaximumVelocityShape4D<Velocity = H::Point, Hyperplane = H>,
    B::Section: MaximumVelocityShape3D<Velocity = H::Point3, Plane = H::Plane>,
    <B::Section as MaximumVelocityShape3D>::Section: MaximumVelocityShape2D<
        Velocity = <H::Plane as PlaneOperations>::Point2,
        Scalar = <<H::Plane as PlaneOperations>::HalfPlane as Vec2Operations>::Scalar,
        Ray = <<H::Plane as PlaneOperations>::HalfPlane as HalfPlaneOperations>::Ray,
    >,
    requires
        n <= hyperplanes.len(),
        satisfies_all_4d(hyperplanes, start),
    ensures
        optimum_4d_after(shape, hyperplanes, start, n) == (OptimizationResult4D::Feasible {
            optimal_velocity: start,
        }),
    decreases n,
{
    if n > 0 {
        lemma_unconstrained_prefix_4d(shape, hyperplanes, start, (n - 1) as nat);
        assert(hyperplanes[n - 1].spec_contains(start));
    }
}

/// A feasible outcome is feasible: where every move onto a hyperplane is
/// sound, the velocity of a `Feasible` outcome satisfies every hyperplane.
pub proof fn lemma_feasible_optimum_satisfies_all_4d<B, H>(
    preferred_velocity: H::Point,
    shape: B,
    hyperplanes: Seq<H>,
) where
    H: HyperplaneOperations,
    B: MaximumVelocityShape4D<Velocity = H::Point, Hyperplane = H>,
    B::Section: MaximumVelocityShape3D<Velocity = H::Point3, Plane = H::Plane>,
    <B::Section as MaximumVelocityShape3D>::Section: MaximumVelocityShape2D<
        Velocity = <H::Plane as PlaneOperations>::Point2,
        Scalar = <<H::Plane as PlaneOperations>::HalfPlane as Vec2Operations>::Scalar,
        Ray = <<H::Plane as PlaneOperations>::HalfPlane as HalfPlaneOperations>::Ray,
    >,
    requires
        moves_are_sound_4d(shape, hyperplanes),
    ensures
        optimum_4d(preferred_velocity, shape, hyperplanes) matches OptimizationResult4D::Feasible {
            optimal_velocity,
        } ==> satisfies_all_4d(hyperplanes, optimal_velocity),
{
    lemma_feasible_prefix_satisfies_4d(
        shape,
        hyperplanes,
        shape.spec_constrain(preferred_velocity),
        hyperplanes.len(),
    );
}

/// The same, for the state after the first `n` constraints: a feasible state satisfies
/// those `n`.
proof fn lemma_feasible_prefix_satisfies_4d<B, H>(
    shape: B,
    hyperplanes: Seq<H>,
    start: H::Point,
    n: nat,
) where
    H: HyperplaneOperations,
    B: MaximumVelocityShape4D<Velocity = H::Point, Hyperplane = H>,
    B::Section: MaximumVelocityShape3D<Velocity = H::Point3, Plane = H::Plane>,
    <B::Section as MaximumVelocityShape3D>::Section: MaximumVelocityShape2D<
        Velocity = <H::Plane as PlaneOperations>::Point2,
        Scalar = <<H::Plane as PlaneOperations>::HalfPlane as Vec2Operations>::Scalar,
        Ray = <<H::Plane as PlaneOperations>::HalfPlane as HalfPlaneOperations>::Ray,
    >,
    requires
        n <= hyperplanes.len(),
        moves_are_sound_4d(shape, hyperplanes),
    ensures
        optimum_4d_after(shape, hyperplanes, start, n) matches OptimizationResult4D::Feasible {
            optimal_velocity,
        } ==> satisfies_first_4d(hyperplanes, n as int, optimal_velocity),
    decreases n,
{
    if n > 0 {
        lemma_feasible_prefix_satisfies_4d(shape, hyperplanes, start, (n - 1) as nat);
        match optimum_4d_after(shape, hyperplanes, start, (n - 1) as nat) {
            OptimizationResult4D::Feasible { optimal_velocity } => {
                if !hyperplanes[n - 1].spec_contains(optimal_velocity) {
                    assert(nearest_on_boundary_4d(shape, hyperplanes, n - 1, optimal_velocity)
                        matches Some(moved) ==> satisfies_first_4d(hyperplanes, n as int, moved));
                }
            },
            OptimizationResult4D::Infeasible { .. } => {},
        }
    }
}

/// The planes on a hyperplane's boundary are made from the hyperplanes
/// before it alone.
proof fn lemma_planes_read_a_prefix<H: HyperplaneOperations>(
    hyperplane: H,
    hyperplanes: Seq<H>,
    longer: Seq<H>,
    n: nat,
)
    requires
        n <= hyperplanes.len() <= longer.len(),
        forall|j: int| 0 <= j < hyperplanes.len() ==> hyperplanes[j] == longer[j],
    ensures
        planes_on(hyperplane, longer, n) == planes_on(hyperplane, hyperplanes, n),
    decreases n,
{
    if n > 0 {
        lemma_planes_read_a_prefix(hyperplane, hyperplanes, longer, (n - 1) as nat);
    }
}

/// Whether the parallel hyperplanes among the first `n` allow a point does
/// not depend on the hyperplanes that follow.
proof fn lemma_parallel_hyperplanes_read_a_prefix<H: HyperplaneOperations>(
    hyperplane: H,
    hyperplanes: Seq<H>,
    longer: Seq<H>,
    n: nat,
    point: H::Point,
)
    requires
        n <= hyperplanes.len() <= longer.len(),
        forall|j: int| 0 <= j < hyperplanes.len() ==> hyperplanes[j] == longer[j],
    ensures
        parallel_hyperplanes_allow(hyperplane, longer, n, point) == parallel_hyperplanes_allow(
            hyperplane,
            hyperplanes,
            n,
            point,
        ),
{
    assert forall|j: int|
        #![trigger H::Plane::spec_from_hyperplane_intersection(&hyperplane, &longer[j])]
        #![trigger H::Plane::spec_from_hyperplane_intersection(&hyperplane, &hyperplanes[j])]
        0 <= j < n implies hyperplanes[j] == longer[j] by {}
}

/// The optimization is incremental: the state after the first `n`
/// hyperplanes does not depend on those that follow.
pub proof fn lemma_later_hyperplanes_do_not_matter<B, H>(
    shape: B,
    hyperplanes: Seq<H>,
    longer: Seq<H>,
    start: H::Point,
    n: nat,
) where
    H: HyperplaneOperations,
    B: MaximumVelocityShape4D<Velocity = H::Point, Hyperplane = H>,
    B::Section: MaximumVelocityShape3D<Velocity = H::Point3, Plane = H::Plane>,
    <B::Section as MaximumVelocityShape3D>::Section: MaximumVelocityShape2D<
        Velocity = <H::Plane as PlaneOperations>::Point2,
        Scalar = <<H::Plane as PlaneOperations>::HalfPlane as Vec2Operations>::Scalar,
        Ray = <<H::Plane as PlaneOperations>::HalfPlane as HalfPlaneOperations>::Ray,
    >,
    requires
        n <= hyperplanes.len() <= longer.len(),
        forall|j: int| 0 <= j < hyperplanes.len() ==> hyperplanes[j] == longer[j],
    ensures
        optimum_4d_after(shape, longer, start, n) == optimum_4d_after(
            shape,
            hyperplanes,
            start,
            n,
        ),
    decreases n,
{
    if n > 0 {
        lemma_later_hyperplanes_do_not_matter(shape, hyperplanes, longer, start, (n - 1) as nat);
        lemma_planes_read_a_prefix(hyperplanes[n - 1], hyperplanes, longer, (n - 1) as nat);
        match optimum_4d_after(shape, hyperplanes, start, (n - 1) as nat) {
            OptimizationResult4D::Feasible { optimal_velocity } => {
                lemma_parallel_hyperplanes_read_a_prefix(
                    hyperplanes[n - 1],
                    hyperplanes,
                    longer,
                    (n - 1) as nat,
                    hyperplanes[n - 1].spec_constrain(optimal_velocity),
                );
            },
            OptimizationResult4D::Infeasible { .. } => {},
        }
    }
}

/// A further hyperplane never makes an infeasible problem feasible, and
/// leaves the optimum alone where the optimum satisfies it.
pub proof fn lemma_added_hyperplane<B, H>(
    preferred_velocity: H::Point,
    shape: B,
    hyperplanes: Seq<H>,
    added: H,
) where
    H: HyperplaneOperations,
    B: MaximumVelocityShape4D<Velocity = H::Point, Hyperplane = H>,
    B::Section: MaximumVelocityShape3D<Velocity = H::Point3, Plane = H::Plane>,
    <B::Section as MaximumVelocityShape3D>::Section: MaximumVelocityShape2D<
        Velocity = <H::Plane as PlaneOperations>::Point2,
        Scalar = <<H::Plane as PlaneOperations>::HalfPlane as Vec2Operations>::Scalar,
        Ray = <<H::Plane as PlaneOperations>::HalfPlane as HalfPlaneOperations>::Ray,
    >,
    ensures
        match optimum_4d(preferred_velocity, shape, hyperplanes) {
            OptimizationResult4D::Feasible { optimal_velocity } => added.spec_contains(
                optimal_velocity,
            ) ==> optimum_4d(preferred_velocity, shape, hyperplanes.push(added)) == optimum_4d(
                preferred_velocity,
                shape,
                hyperplanes,
            ),
            infeasible => optimum_4d(preferred_velocity, shape, hyperplanes.push(added))
                == infeasible,
        },
{
    let longer = hyperplanes.push(added);
    lemma_later_hyperplanes_do_not_matter(
        shape,
        hyperplanes,
        longer,
        shape.spec_constrain(preferred_velocity),
        hyperplanes.len(),
    );
    assert(longer[hyperplanes.len() as int] == added);
}

/// Whether every point of a hyperplane's boundary, taken in the
/// hyperplane's own coordinates and carried back, satisfies the hyperplane.
pub open spec fn boundaries_are_inside_4d<H: HyperplaneOperations>(hyperplanes: Seq<H>) -> bool {
    forall|i: int, on_hyperplane: H::Point3|
        0 <= i < hyperplanes.len() ==> hyperplanes[i].spec_contains(
            #[trigger] hyperplanes[i].spec_project_4d(on_hyperplane),
        )
}

/// Whether the plane that an earlier hyperplane leaves on a later
/// hyperplane's boundary tells the truth: a point of the boundary that the
/// plane contains satisfies the earlier hyperplane.
pub open spec fn sections_are_faithful_4d<H: HyperplaneOperations>(hyperplanes: Seq<H>) -> bool {
    forall|i: int, j: int, on_hyperplane: H::Point3|
        0 <= j < i < hyperplanes.len()
            ==> match #[trigger] H::Plane::spec_from_hyperplane_intersection(
            &hyperplanes[i],
            &hyperplanes[j],
        ) {
            Some(plane) => plane.spec_contains(on_hyperplane) ==> hyperplanes[j].spec_contains(
                #[trigger] hyperplanes[i].spec_project_4d(on_hyperplane),
            ),
            None => true,
        }
}

/// Whether an earlier hyperplane that leaves no plane on a later
/// hyperplane's boundary, being parallel to it, contains every point of
/// that boundary if it contains one.
pub open spec fn parallel_hyperplanes_are_alike<H: HyperplaneOperations>(
    hyperplanes: Seq<H>,
) -> bool {
    forall|i: int, j: int, on_hyperplane: H::Point3, velocity: H::Point|
        #![trigger
            H::Plane::spec_from_hyperplane_intersection(&hyperplanes[i], &hyperplanes[j]),
            hyperplanes[i].spec_project_4d(on_hyperplane),
            hyperplanes[i].spec_constrain(velocity),
        ]
        0 <= j < i < hyperplanes.len() && H::Plane::spec_from_hyperplane_intersection(
            &hyperplanes[i],
            &hyperplanes[j],
        ) is None && hyperplanes[j].spec_contains(hyperplanes[i].spec_constrain(velocity))
            ==> hyperplanes[j].spec_contains(hyperplanes[i].spec_project_4d(on_hyperplane))
}

/// Whether what `hyperplane` cuts out of `shape` is a part of `shape`: a
/// point that the section holds, carried back, is a point that `shape`
/// holds.
pub open spec fn section_is_in_bounds_4d<B, H>(
    shape: B,
    hyperplane: H,
    section: B::Section,
) -> bool where
    H: HyperplaneOperations,
    B: MaximumVelocityShape4D<Velocity = H::Point, Hyperplane = H>,
    B::Section: MaximumVelocityShape3D<Velocity = H::Point3, Plane = H::Plane>,
    <B::Section as MaximumVelocityShape3D>::Section: MaximumVelocityShape2D<
        Velocity = <H::Plane as PlaneOperations>::Point2,
        Scalar = <<H::Plane as PlaneOperations>::HalfPlane as Vec2Operations>::Scalar,
        Ray = <<H::Plane as PlaneOperations>::HalfPlane as HalfPlaneOperations>::Ray,
    >,
 {
    forall|on_hyperplane: H::Point3|
        section.spec_constrain(on_hyperplane) == on_hyperplane ==> shape.spec_constrain(
            #[trigger] hyperplane.spec_project_4d(on_hyperplane),
        ) == hyperplane.spec_project_4d(on_hyperplane)
}

/// Whether the bounding solid, the hyperplanes, and what they leave on
/// each other behave as those of exact geometry do, as far as the
/// optimization relies on it.
pub open spec fn geometry_is_exact_4d<B, H>(shape: B, hyperplanes: Seq<H>) -> bool where
    H: HyperplaneOperations,
    B: MaximumVelocityShape4D<Velocity = H::Point, Hyperplane = H>,
    B::Section: MaximumVelocityShape3D<Velocity = H::Point3, Plane = H::Plane>,
    <B::Section as MaximumVelocityShape3D>::Section: MaximumVelocityShape2D<
        Velocity = <H::Plane as PlaneOperations>::Point2,
        Scalar = <<H::Plane as PlaneOperations>::HalfPlane as Vec2Operations>::Scalar,
        Ray = <<H::Plane as PlaneOperations>::HalfPlane as HalfPlaneOperations>::Ray,
    >,
 {
    &&& boundaries_are_inside_4d(hyperplanes)
    &&& sections_are_faithful_4d(hyperplanes)
    &&& parallel_hyperplanes_are_alike(hyperplanes)
    &&& forall|i: int|
        0 <= i < hyperplanes.len() ==> match #[trigger] shape.spec_project_on_hyperplane(
            &hyperplanes[i],
        ) {
            Some(shape_3d) => {
                &&& geometry_is_exact_3d(
                    shape_3d,
                    planes_on(hyperplanes[i], hyperplanes, i as nat),
                )
                &&& bounds_are_idempotent_3d(shape_3d)
                &&& section_is_in_bounds_4d(shape, hyperplanes[i], shape_3d)
            },
            None => true,
        }
}

/// Whether every move onto a hyperplane ends in the bounding solid.
pub open spec fn moves_stay_in_bounds_4d<B, H>(shape: B, hyperplanes: Seq<H>) -> bool where
    H: HyperplaneOperations,
    B: MaximumVelocityShape4D<Velocity = H::Point, Hyperplane = H>,
    B::Section: MaximumVelocityShape3D<Velocity = H::Point3, Plane = H::Plane>,
    <B::Section as MaximumVelocityShape3D>::Section: MaximumVelocityShape2D<
        Velocity = <H::Plane as PlaneOperations>::Point2,
        Scalar = <<H::Plane as PlaneOperations>::HalfPlane as Vec2Operations>::Scalar,
        Ray = <<H::Plane as PlaneOperations>::HalfPlane as HalfPlaneOperations>::Ray,
    >,
 {
    forall|i: int, velocity: H::Point|
        0 <= i < hyperplanes.len() ==> match #[trigger] nearest_on_boundary_4d(
            shape,
            hyperplanes,
            i,
            velocity,
        ) {
            Some(moved) => shape.spec_constrain(moved) == moved,
            None => true,
        }
}

/// The velocity that an outcome carries, feasible or not.
pub open spec fn velocity_of_4d<V>(outcome: OptimizationResult4D<V>) -> V {
    match outcome {
        OptimizationResult4D::Feasible { optimal_velocity } => optimal_velocity,
        OptimizationResult4D::Infeasible { last_optimal_velocity } => last_optimal_velocity,
    }
}

/// Every plane that one of the first `n` hyperplanes leaves on the boundary
/// of `hyperplane` is among `planes_on`.
proof fn lemma_plane_is_listed<H: HyperplaneOperations>(
    hyperplane: H,
    hyperplanes: Seq<H>,
    n: nat,
    j: int,
)
    requires
        0 <= j < n <= hyperplanes.len(),
        H::Plane::spec_from_hyperplane_intersection(&hyperplane, &hyperplanes[j]) is Some,
    ensures
        planes_on(hyperplane, hyperplanes, n).contains(
            H::Plane::spec_from_hyperplane_intersection(&hyperplane, &hyperplanes[j])->0,
        ),
    decreases n,
{
    let before = planes_on(hyperplane, hyperplanes, (n - 1) as nat);
    let listed = planes_on(hyperplane, hyperplanes, n);
    if j < n - 1 {
        lemma_plane_is_listed(hyperplane, hyperplanes, (n - 1) as nat, j);
        let plane = H::Plane::spec_from_hyperplane_intersection(&hyperplane, &hyperplanes[j])->0;
        let k = choose|k: int| 0 <= k < before.len() && before[k] == plane;
        assert(listed[k] == plane);
    } else {
        assert(listed[before.len() as int] == H::Plane::spec_from_hyperplane_intersection(
            &hyperplane,
            &hyperplanes[j],
        )->0);
    }
}

/// In exact geometry every move onto a hyperplane is sound and ends in the
/// bounding solid.
pub proof fn lemma_geometry_is_sound_4d<B, H>(shape: B, hyperplanes: Seq<H>) where
    H: HyperplaneOperations,
    B: MaximumVelocityShape4D<Velocity = H::Point, Hyperplane = H>,
    B::Section: MaximumVelocityShape3D<Velocity = H::Point3, Plane = H::Plane>,
    <B::Section as MaximumVelocityShape3D>::Section: MaximumVelocityShape2D<
        Velocity = <H::Plane as PlaneOperations>::Point2,
        Scalar = <<H::Plane as PlaneOperations>::HalfPlane as Vec2Operations>::Scalar,
        Ray = <<H::Plane as PlaneOperations>::HalfPlane as HalfPlaneOperations>::Ray,
    >,
    requires
        geometry_is_exact_4d(shape, hyperplanes),
    ensures
        moves_are_sound_4d(shape, hyperplanes),
        moves_stay_in_bounds_4d(shape, hyperplanes),
{
    assert forall|i: int, velocity: H::Point|
        0 <= i < hyperplanes.len() implies match #[trigger] nearest_on_boundary_4d(
        shape,
        hyperplanes,
        i,
        velocity,
    ) {
        Some(moved) => satisfies_first_4d(hyperplanes, i + 1, moved) && shape.spec_constrain(moved)
            == moved,
        None => true,
    } by {
        let hyperplane = hyperplanes[i];
        match shape.spec_project_on_hyperplane(&hyperplane) {
            Some(shape_3d) => {
                let on_boundary = hyperplane.spec_constrain(velocity);
                let on_hyperplane = hyperplane.spec_project_3d(on_boundary);
                let planes = planes_on(hyperplane, hyperplanes, i as nat);
                if parallel_hyperplanes_allow(hyperplane, hyperplanes, i as nat, on_boundary) {
                    lemma_feasible_velocity_satisfies_every_plane(on_hyperplane, shape_3d, planes);
                    assert(shape_3d.spec_constrain(shape_3d.spec_constrain(on_hyperplane))
                        == shape_3d.spec_constrain(on_hyperplane));
                    lemma_velocity_found_is_in_bounds_3d(on_hyperplane, shape_3d, planes);
                    match optimum_3d(on_hyperplane, shape_3d, planes) {
                        OptimizationResult3D::Feasible { optimal_velocity } => {
                            let moved = hyperplane.spec_project_4d(optimal_velocity);
                            assert(velocity_of_3d(optimum_3d(on_hyperplane, shape_3d, planes))
                                == optimal_velocity);
                            assert(shape.spec_constrain(moved) == moved);
                            assert forall|j: int| 0 <= j < i + 1 implies (
                            #[trigger] hyperplanes[j]).spec_contains(moved) by {
                                if j < i {
                                    match H::Plane::spec_from_hyperplane_intersection(
                                        &hyperplanes[i],
                                        &hyperplanes[j],
                                    ) {
                                        Some(plane) => {
                                            lemma_plane_is_listed(
                                                hyperplane,
                                                hyperplanes,
                                                i as nat,
                                                j,
                                            );
                                            let k = choose|k: int|
                                                0 <= k < planes.len() && planes[k] == plane;
                                            assert(planes[k].spec_contains(optimal_velocity));
                                        },
                                        None => {
                                            assert(hyperplanes[j].spec_contains(on_boundary));
                                        },
                                    }
                                }
                            }
                        },
                        OptimizationResult3D::Infeasible { .. } => {},
                    }
                }
            },
            None => {},
        }
    }
}

/// Feasibility: in exact geometry the velocity of a `Feasible` outcome
/// satisfies every hyperplane of the list.
pub proof fn lemma_feasible_velocity_satisfies_every_hyperplane<B, H>(
    preferred_velocity: H::Point,
    shape: B,
    hyperplanes: Seq<H>,
) where
    H: HyperplaneOperations,
    B: MaximumVelocityShape4D<Velocity = H::Point, Hyperplane = H>,
    B::Section: MaximumVelocityShape3D<Velocity = H::Point3, Plane = H::Plane>,
    <B::Section as MaximumVelocityShape3D>::Section: MaximumVelocityShape2D<
        Velocity = <H::Plane as PlaneOperations>::Point2,
        Scalar = <<H::Plane as PlaneOperations>::HalfPlane as Vec2Operations>::Scalar,
        Ray = <<H::Plane as PlaneOperations>::HalfPlane as HalfPlaneOperations>::Ray,
    >,
    requires
        geometry_is_exact_4d(shape, hyperplanes),
    ensures
        optimum_4d(preferred_velocity, shape, hyperplanes) matches OptimizationResult4D::Feasible {
            optimal_velocity,
        } ==> satisfies_all_4d(hyperplanes, optimal_velocity),
{
    lemma_geometry_is_sound_4d(shape, hyperplanes);
    lemma_feasible_optimum_satisfies_all_4d(preferred_velocity, shape, hyperplanes);
}

/// The velocity found lies in the bounding solid: where every move ends in
/// the solid and constraining the preferred velocity a second time changes
/// nothing, the solid leaves the velocity of the outcome, feasible or not,
/// where it is.
pub proof fn lemma_optimum_is_in_bounds_4d<B, H>(
    preferred_velocity: H::Point,
    shape: B,
    hyperplanes: Seq<H>,
) where
    H: HyperplaneOperations,
    B: MaximumVelocityShape4D<Velocity = H::Point, Hyperplane = H>,
    B::Section: MaximumVelocityShape3D<Velocity = H::Point3, Plane = H::Plane>,
    <B::Section as MaximumVelocityShape3D>::Section: MaximumVelocityShape2D<
        Velocity = <H::Plane as PlaneOperations>::Point2,
        Scalar = <<H::Plane as PlaneOperations>::HalfPlane as Vec2Operations>::Scalar,
        Ray = <<H::Plane as PlaneOperations>::HalfPlane as HalfPlaneOperations>::Ray,
    >,
    requires
        moves_stay_in_bounds_4d(shape, hyperplanes),
        shape.spec_constrain(shape.spec_constrain(preferred_velocity)) == shape.spec_constrain(
            preferred_velocity,
        ),
    ensures
        shape.spec_constrain(velocity_of_4d(optimum_4d(preferred_velocity, shape, hyperplanes)))
            == velocity_of_4d(optimum_4d(preferred_velocity, shape, hyperplanes)),
{
    lemma_prefix_is_in_bounds_4d(
        shape,
        hyperplanes,
        shape.spec_constrain(preferred_velocity),
        hyperplanes.len(),
    );
}

/// The same, for the state after the first `n` constraints.
proof fn lemma_prefix_is_in_bounds_4d<B, H>(
    shape: B,
    hyperplanes: Seq<H>,
    start: H::Point,
    n: nat,
) where
    H: HyperplaneOperations,
    B: MaximumVelocityShape4D<Velocity = H::Point, Hyperplane = H>,
    B::Section: MaximumVelocityShape3D<Velocity = H::Point3, Plane = H::Plane>,
    <B::Section as MaximumVelocityShape3D>::Section: MaximumVelocityShape2D<
        Velocity = <H::Plane as PlaneOperations>::Point2,
        Scalar = <<H::Plane as PlaneOperations>::HalfPlane as Vec2Operations>::Scalar,
        Ray = <<H::Plane as PlaneOperations>::HalfPlane as HalfPlaneOperations>::Ray,
    >,
    requires
        n <= hyperplanes.len(),
        moves_stay_in_bounds_4d(shape, hyperplanes),
        shape.spec_constrain(start) == start,
    ensures
        shape.spec_constrain(velocity_of_4d(optimum_4d_after(shape, hyperplanes, start, n)))
            == velocity_of_4d(optimum_4d_after(shape, hyperplanes, start, n)),
    decreases n,
{
    if n > 0 {
        lemma_prefix_is_in_bounds_4d(shape, hyperplanes, start, (n - 1) as nat);
        match optimum_4d_after(shape, hyperplanes, start, (n - 1) as nat) {
            OptimizationResult4D::Feasible { optimal_velocity } => {
                if !hyperplanes[n - 1].spec_contains(optimal_velocity) {
                    assert(nearest_on_boundary_4d(shape, hyperplanes, n - 1, optimal_velocity)
                        matches Some(moved) ==> shape.spec_constrain(moved) == moved);
                }
            },
            OptimizationResult4D::Infeasible { .. } => {},
        }
    }
}

/// In exact geometry the velocity found lies in the bounding solid: the
/// solid leaves the velocity of the outcome, feasible or not, where it is.
pub proof fn lemma_velocity_found_is_in_bounds_4d<B, H>(
    preferred_velocity: H::Point,
    shape: B,
    hyperplanes: Seq<H>,
) where
    H: HyperplaneOperations,
    B: MaximumVelocityShape4D<Velocity = H::Point, Hyperplane = H>,
    B::Section: MaximumVelocityShape3D<Velocity = H::Point3, Plane = H::Plane>,
    <B::Section as MaximumVelocityShape3D>::Section: MaximumVelocityShape2D<
        Velocity = <H::Plane as PlaneOperations>::Point2,
        Scalar = <<H::Plane as PlaneOperations>::HalfPlane as Vec2Operations>::Scalar,
        Ray = <<H::Plane as PlaneOperations>::HalfPlane as HalfPlaneOperations>::Ray,
    >,
    requires
        geometry_is_exact_4d(shape, hyperplanes),
        shape.spec_constrain(shape.spec_constrain(preferred_velocity)) == shape.spec_constrain(
            preferred_velocity,
        ),
    ensures
        shape.spec_constrain(velocity_of_4d(optimum_4d(preferred_velocity, shape, hyperplanes)))
            == velocity_of_4d(optimum_4d(preferred_velocity, shape, hyperplanes)),
{
    lemma_geometry_is_sound_4d(shape, hyperplanes);
    lemma_optimum_is_in_bounds_4d(preferred_velocity, shape, hyperplanes);
}

/// Where constraining the preferred velocity to the bounding shape a second
/// time changes nothing, the optimization may as well start from the
/// constrained velocity: the outcome is the same.
pub proof fn lemma_constrained_preference_is_as_good_4d<B, H>(
    preferred_velocity: H::Point,
    shape: B,
    hyperplanes: Seq<H>,
) where
    H: HyperplaneOperations,
    B: MaximumVelocityShape4D<Velocity = H::Point, Hyperplane = H>,
    B::Section: MaximumVelocityShape3D<Velocity = H::Point3, Plane = H::Plane>,
    <B::Section as MaximumVelocityShape3D>::Section: MaximumVelocityShape2D<
        Velocity = <H::Plane as PlaneOperations>::Point2,
        Scalar = <<H::Plane as PlaneOperations>::HalfPlane as Vec2Operations>::Scalar,
        Ray = <<H::Plane as PlaneOperations>::HalfPlane as HalfPlaneOperations>::Ray,
    >,

    requires
        shape.spec_constrain(shape.spec_constrain(preferred_velocity)) == shape.spec_constrain(
            preferred_velocity,
        ),
    ensures
        optimum_4d(shape.spec_constrain(preferred_velocity), shape, hyperplanes) == optimum_4d(
            preferred_velocity,
            shape,
            hyperplanes,
        ),
{
}

/// Whether hyperplane `k` is where the optimization gave up with `velocity`:
/// the velocity satisfies every hyperplane before `k` but not hyperplane `k`, and
/// nothing of the boundary of `k` is left to move to.
pub open spec fn gave_up_at_4d<B, H>(
    shape: B,
    hyperplanes: Seq<H>,
    k: int,
    velocity: H::Point,
) -> bool where
    H: HyperplaneOperations,
    B: MaximumVelocityShape4D<Velocity = H::Point, Hyperplane = H>,
    B::Section: MaximumVelocityShape3D<Velocity = H::Point3, Plane = H::Plane>,
    <B::Section as MaximumVelocityShape3D>::Section: MaximumVelocityShape2D<
        Velocity = <H::Plane as PlaneOperations>::Point2,
        Scalar = <<H::Plane as PlaneOperations>::HalfPlane as Vec2Operations>::Scalar,
        Ray = <<H::Plane as PlaneOperations>::HalfPlane as HalfPlaneOperations>::Ray,
    >,
 {
    &&& 0 <= k < hyperplanes.len()
    &&& satisfies_first_4d(hyperplanes, k, velocity)
    &&& !hyperplanes[k].spec_contains(velocity)
    &&& nearest_on_boundary_4d(shape, hyperplanes, k, velocity) is None
}

/// An infeasible outcome hands back the best of what was reached: where
/// every move onto a boundary is sound, the velocity of an `Infeasible`
/// outcome satisfies every hyperplane before the one that could not be met.
pub proof fn lemma_infeasible_velocity_satisfies_the_earlier_4d<B, H>(
    preferred_velocity: H::Point,
    shape: B,
    hyperplanes: Seq<H>,
) where
    H: HyperplaneOperations,
    B: MaximumVelocityShape4D<Velocity = H::Point, Hyperplane = H>,
    B::Section: MaximumVelocityShape3D<Velocity = H::Point3, Plane = H::Plane>,
    <B::Section as MaximumVelocityShape3D>::Section: MaximumVelocityShape2D<
        Velocity = <H::Plane as PlaneOperations>::Point2,
        Scalar = <<H::Plane as PlaneOperations>::HalfPlane as Vec2Operations>::Scalar,
        Ray = <<H::Plane as PlaneOperations>::HalfPlane as HalfPlaneOperations>::Ray,
    >,
    requires
        moves_are_sound_4d(shape, hyperplanes),
    ensures
        optimum_4d(preferred_velocity, shape, hyperplanes) matches OptimizationResult4D::Infeasible {
            last_optimal_velocity,
        } ==> exists|k: int| #[trigger] gave_up_at_4d(shape, hyperplanes, k, last_optimal_velocity),
{
    lemma_infeasible_prefix_gave_up_4d(
        shape,
        hyperplanes,
        shape.spec_constrain(preferred_velocity),
        hyperplanes.len(),
    );
}

/// The same, for the state after the first `n` constraints.
proof fn lemma_infeasible_prefix_gave_up_4d<B, H>(
    shape: B,
    hyperplanes: Seq<H>,
    start: H::Point,
    n: nat,
) where
    H: HyperplaneOperations,
    B: MaximumVelocityShape4D<Velocity = H::Point, Hyperplane = H>,
    B::Section: MaximumVelocityShape3D<Velocity = H::Point3, Plane = H::Plane>,
    <B::Section as MaximumVelocityShape3D>::Section: MaximumVelocityShape2D<
        Velocity = <H::Plane as PlaneOperations>::Point2,
        Scalar = <<H::Plane as PlaneOperations>::HalfPlane as Vec2Operations>::Scalar,
        Ray = <<H::Plane as PlaneOperations>::HalfPlane as HalfPlaneOperations>::Ray,
    >,
    requires
        n <= hyperplanes.len(),
        moves_are_sound_4d(shape, hyperplanes),
    ensures
        optimum_4d_after(shape, hyperplanes, start, n) is Infeasible ==> exists|k: int| #[trigger]
            gave_up_at_4d(
                shape,
                hyperplanes,
                k,
                optimum_4d_after(shape, hyperplanes, start, n)->last_optimal_velocity,
            ),
    decreases n,
{
    let now = optimum_4d_after(shape, hyperplanes, start, n);
    if n > 0 {
        lemma_infeasible_prefix_gave_up_4d(shape, hyperplanes, start, (n - 1) as nat);
        lemma_feasible_prefix_satisfies_4d(shape, hyperplanes, start, (n - 1) as nat);
        match optimum_4d_after(shape, hyperplanes, start, (n - 1) as nat) {
            OptimizationResult4D::Feasible { optimal_velocity } => {
                if now is Infeasible {
                    assert(now->last_optimal_velocity == optimal_velocity);
                    assert(gave_up_at_4d(shape, hyperplanes, n - 1, optimal_velocity));
                }
            },
            OptimizationResult4D::Infeasible { last_optimal_velocity } => {
                assert(now->last_optimal_velocity == last_optimal_velocity);
                let k = choose|k: int| #[trigger]
                    gave_up_at_4d(shape, hyperplanes, k, last_optimal_velocity);
                assert(gave_up_at_4d(shape, hyperplanes, k, last_optimal_velocity));
            },
        }
    }
}

/// The optimum is stable: where every move onto a boundary is sound and
/// ends in the bounding shape, and constraining the preferred velocity a
/// second time changes nothing, the optimization started from the velocity
/// of a `Feasible` outcome finds it again.
pub proof fn lemma_optimum_is_stable_4d<B, H>(
    preferred_velocity: H::Point,
    shape: B,
    hyperplanes: Seq<H>,
) where
    H: HyperplaneOperations,
    B: MaximumVelocityShape4D<Velocity = H::Point, Hyperplane = H>,
    B::Section: MaximumVelocityShape3D<Velocity = H::Point3, Plane = H::Plane>,
    <B::Section as MaximumVelocityShape3D>::Section: MaximumVelocityShape2D<
        Velocity = <H::Plane as PlaneOperations>::Point2,
        Scalar = <<H::Plane as PlaneOperations>::HalfPlane as Vec2Operations>::Scalar,
        Ray = <<H::Plane as PlaneOperations>::HalfPlane as HalfPlaneOperations>::Ray,
    >,
    requires
        moves_are_sound_4d(shape, hyperplanes),
        moves_stay_in_bounds_4d(shape, hyperplanes),
        shape.spec_constrain(shape.spec_constrain(preferred_velocity)) == shape.spec_constrain(
            preferred_velocity,
        ),
    ensures
        optimum_4d(preferred_velocity, shape, hyperplanes) matches OptimizationResult4D::Feasible {
            optimal_velocity,
        } ==> optimum_4d(optimal_velocity, shape, hyperplanes) == optimum_4d(
            preferred_velocity,
            shape,
            hyperplanes,
        ),
{
    lemma_feasible_optimum_satisfies_all_4d(preferred_velocity, shape, hyperplanes);
    lemma_optimum_is_in_bounds_4d(preferred_velocity, shape, hyperplanes);
    match optimum_4d(preferred_velocity, shape, hyperplanes) {
        OptimizationResult4D::Feasible { optimal_velocity } => {
            lemma_unconstrained_optimum_4d(optimal_velocity, shape, hyperplanes);
        },
        OptimizationResult4D::Infeasible { .. } => {},
    }
}

/// One more hyperplane makes nothing feasible and frees no velocity: in
/// exact geometry, where the longer list has a feasible outcome, so has the
/// shorter one, and the velocity found for the longer list satisfies every
/// hyperplane of the shorter list and the one that was added.
pub proof fn lemma_longer_list_is_no_easier_4d<B, H>(
    preferred_velocity: H::Point,
    shape: B,
    hyperplanes: Seq<H>,
    added: H,
) where
    H: HyperplaneOperations,
    B: MaximumVelocityShape4D<Velocity = H::Point, Hyperplane = H>,
    B::Section: MaximumVelocityShape3D<Velocity = H::Point3, Plane = H::Plane>,
    <B::Section as MaximumVelocityShape3D>::Section: MaximumVelocityShape2D<
        Velocity = <H::Plane as PlaneOperations>::Point2,
        Scalar = <<H::Plane as PlaneOperations>::HalfPlane as Vec2Operations>::Scalar,
        Ray = <<H::Plane as PlaneOperations>::HalfPlane as HalfPlaneOperations>::Ray,
    >,
    requires
        geometry_is_exact_4d(shape, hyperplanes.push(added)),
    ensures
        optimum_4d(preferred_velocity, shape, hyperplanes.push(added))
            matches OptimizationResult4D::Feasible {
            optimal_velocity,
        } ==> {
            &&& optimum_4d(preferred_velocity, shape, hyperplanes) is Feasible
            &&& satisfies_all_4d(hyperplanes, optimal_velocity)
            &&& added.spec_contains(optimal_velocity)
        },
{
    lemma_added_hyperplane(preferred_velocity, shape, hyperplanes, added);
    lemma_feasible_velocity_satisfies_every_hyperplane(
        preferred_velocity,
        shape,
        hyperplanes.push(added),
    );
    match optimum_4d(preferred_velocity, shape, hyperplanes.push(added)) {
        OptimizationResult4D::Feasible { optimal_velocity } => {
            lemma_feasible_region_shrinks_4d(hyperplanes, added, optimal_velocity);
        },
        OptimizationResult4D::Infeasible { .. } => {},
    }
}

/// Whether constraining a velocity to `shape` a second time changes
/// nothing, for every velocity.
pub open spec fn bounds_are_idempotent_4d<B: MaximumVelocityShape4D>(shape: B) -> bool {
    forall|velocity: B::Velocity| #[trigger]
        shape.spec_constrain(shape.spec_constrain(velocity)) == shape.spec_constrain(velocity)
}

/// A shape whose `constrain` is idempotent bounds velocities idempotently.
pub proof fn lemma_bounds_inherit_idempotence_4d<T>(shape: T) where
    T: Vec4Operations + HyperplaneIntersection,
    requires
        constrain_is_idempotent_4d(shape),
    ensures
        bounds_are_idempotent_4d(shape),
{
    assert forall|velocity: <T as Vec4Operations>::Point| #[trigger]
        MaximumVelocityShape4D::spec_constrain(
            &shape,
            MaximumVelocityShape4D::spec_constrain(&shape, velocity),
        )
            == MaximumVelocityShape4D::spec_constrain(&shape, velocity) by {
        assert(Vec4Operations::spec_constrain(&shape, Vec4Operations::spec_constrain(&shape, velocity))
            == Vec4Operations::spec_constrain(&shape, velocity));
    }
}

} // verus!
