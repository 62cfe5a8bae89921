//! The entry point: the best velocity under a speed limit and a list of
//! avoidance planes, whether or not all the planes can be met.
//!
//! The spatial problem is tried first. Where it has no solution every
//! plane is given slack along a fourth axis and the problem is solved
//! again, one dimension up, inside the speed limit extruded along that
//! axis. The fourth coordinate of the answer is dropped. The velocity
//! returned then violates some plane, as any velocity would, but the
//! caller always gets one.

use vstd::prelude::*;
use crate::half_plane::HalfPlaneOperations;
use crate::hyperplane::HyperplaneOperations;
use crate::plane::PlaneOperations;
use crate::points::{Vec2Operations, Vec3Operations, Vec4Operations};
use crate::solver_2d::MaximumVelocityShape2D;
use crate::solver_3d::{
    geometry_is_exact_3d,
    incremental_optimization_3d,
    lemma_feasible_velocity_satisfies_every_plane,
    lemma_unconstrained_optimum_3d,
    lemma_velocity_found_is_in_bounds_3d,
    optimum_3d,
    satisfies_all_3d,
    velocity_of_3d,
    MaximumVelocityShape3D,
    OptimizationResult3D,
};
use crate::solver_4d::{
    geometry_is_exact_4d,
    incremental_optimization_4d,
    lemma_velocity_found_is_in_bounds_4d,
    optimum_4d,
    velocity_of_4d,
    MaximumVelocityShape4D,
    OptimizationResult4D,
};

verus! {

/// The space in which velocities are chosen: how a speed limit bounds
/// them, and how a problem is carried over to four dimensions.
///
/// Every method promises only that its result is the value of the
/// specification function of the same name.
pub trait VelocitySpace {
    /// A speed limit.
    type Speed: Copy;

    /// An avoidance plane.
    type Plane: PlaneOperations<Hyperplane = Self::Hyperplane>;

    /// An avoidance plane with slack.
    type Hyperplane: HyperplaneOperations<
        Plane = Self::Plane,
        Point3 = <Self::Plane as Vec3Operations>::Point,
    >;

    /// What a plane cuts out of the ball.
    type Disk: MaximumVelocityShape2D<
        Velocity = <Self::Plane as PlaneOperations>::Point2,
        Scalar = <<Self::Plane as PlaneOperations>::HalfPlane as Vec2Operations>::Scalar,
        Ray = <<Self::Plane as PlaneOperations>::HalfPlane as HalfPlaneOperations>::Ray,
    >;

    /// The velocities within the speed limit.
    type Ball: MaximumVelocityShape3D<
        Velocity = <Self::Plane as Vec3Operations>::Point,
        Plane = Self::Plane,
        Section = Self::Disk,
    >;

    /// What a plane cuts out of a section of the spherinder.
    type Slice: MaximumVelocityShape2D<
        Velocity = <Self::Plane as PlaneOperations>::Point2,
        Scalar = <<Self::Plane as PlaneOperations>::HalfPlane as Vec2Operations>::Scalar,
        Ray = <<Self::Plane as PlaneOperations>::HalfPlane as HalfPlaneOperations>::Ray,
    >;

    /// What a hyperplane cuts out of the spherinder.
    type Solid: MaximumVelocityShape3D<
        Velocity = <Self::Plane as Vec3Operations>::Point,
        Plane = Self::Plane,
        Section = Self::Slice,
    >;

    /// The ball extruded along the fourth axis.
    type Spherinder: MaximumVelocityShape4D<
        Velocity = <Self::Hyperplane as Vec4Operations>::Point,
        Hyperplane = Self::Hyperplane,
        Section = Self::Solid,
    >;

    /// The ball of the velocities no faster than `maximum_velocity`.
    spec fn spec_ball(maximum_velocity: Self::Speed) -> Self::Ball;

    /// That ball extruded along the fourth axis.
    spec fn spec_spherinder(maximum_velocity: Self::Speed) -> Self::Spherinder;

    /// The plane with slack along the fourth axis.
    spec fn spec_relax(plane: &Self::Plane) -> Self::Hyperplane;

    /// The velocity with the fourth coordinate from which the search
    /// starts.
    spec fn spec_extend(velocity: <Self::Plane as Vec3Operations>::Point) -> <
        Self::Hyperplane as Vec4Operations
    >::Point;

    /// The velocity without its fourth coordinate.
    spec fn spec_truncate(velocity: <Self::Hyperplane as Vec4Operations>::Point) -> <
        Self::Plane as Vec3Operations
    >::Point;

    /// Returns the ball of the velocities no faster than
    /// `maximum_velocity`.
    fn ball(maximum_velocity: Self::Speed) -> (ball: Self::Ball)
        ensures
            ball == Self::spec_ball(maximum_velocity),
    ;

    /// Returns that ball extruded without end along the fourth axis.
    fn spherinder(maximum_velocity: Self::Speed) -> (spherinder: Self::Spherinder)
        ensures
            spherinder == Self::spec_spherinder(maximum_velocity),
    ;

    /// Reads a plane as a hyperplane that gives way along the fourth axis.
    fn relax(plane: &Self::Plane) -> (hyperplane: Self::Hyperplane)
        ensures
            hyperplane == Self::spec_relax(plane),
    ;

    /// Gives a velocity the fourth coordinate from which the relaxed search
    /// starts.
    fn extend(velocity: <Self::Plane as Vec3Operations>::Point) -> (extended: <
        Self::Hyperplane as Vec4Operations
    >::Point)
        ensures
            extended == Self::spec_extend(velocity),
    ;

    /// Drops the fourth coordinate of a velocity.
    fn truncate(velocity: <Self::Hyperplane as Vec4Operations>::Point) -> (truncated: <
        Self::Plane as Vec3Operations
    >::Point)
        ensures
            truncated == Self::spec_truncate(velocity),
    ;
}

/// The planes of a list, each with slack, in the same order.
pub open spec fn relaxed<S: VelocitySpace>(planes: Seq<S::Plane>) -> Seq<S::Hyperplane> {
    Seq::new(planes.len(), |i: int| S::spec_relax(&planes[i]))
}

/// The velocity that the relaxed problem yields: what the four-dimensional
/// optimization reaches, feasible or not, without its fourth coordinate.
pub open spec fn relaxed_velocity<S: VelocitySpace>(
    preferred_velocity: <S::Plane as Vec3Operations>::Point,
    maximum_velocity: S::Speed,
    planes: Seq<S::Plane>,
) -> <S::Plane as Vec3Operations>::Point {
    match optimum_4d(
        S::spec_extend(preferred_velocity),
        S::spec_spherinder(maximum_velocity),
        relaxed::<S>(planes),
    ) {
        OptimizationResult4D::Feasible { optimal_velocity } => S::spec_truncate(optimal_velocity),
        OptimizationResult4D::Infeasible { last_optimal_velocity } => S::spec_truncate(
            last_optimal_velocity,
        ),
    }
}

/// The velocity that `optimize_velocity_3d` returns: the spatial optimum
/// where there is one, else the velocity of the relaxed problem.
pub open spec fn optimal_velocity_3d<S: VelocitySpace>(
    preferred_velocity: <S::Plane as Vec3Operations>::Point,
    maximum_velocity: S::Speed,
    planes: Seq<S::Plane>,
) -> <S::Plane as Vec3Operations>::Point {
    match optimum_3d(preferred_velocity, S::spec_ball(maximum_velocity), planes) {
        OptimizationResult3D::Feasible { optimal_velocity } => optimal_velocity,
        OptimizationResult3D::Infeasible { .. } => relaxed_velocity::<S>(
            preferred_velocity,
            maximum_velocity,
            planes,
        ),
    }
}

/// Returns the velocity nearest to `preferred_velocity` that is no faster
/// than `maximum_velocity` and satisfies all of `planes`; where no velocity
/// does, the velocity that the relaxed problem yields.
///
/// It returns for every input: an over-constrained list of planes is an
/// operating condition, not an error.
pub fn optimize_velocity_3d<S: VelocitySpace>(
    preferred_velocity: <S::Plane as Vec3Operations>::Point,
    maximum_velocity: S::Speed,
    planes: &[S::Plane],
) -> (velocity: <S::Plane as Vec3Operations>::Point)
    ensures
        velocity == optimal_velocity_3d::<S>(preferred_velocity, maximum_velocity, planes@),
{
    let ball = S::ball(maximum_velocity);
    match incremental_optimization_3d(preferred_velocity, &ball, planes) {
        OptimizationResult3D::Feasible { optimal_velocity } => optimal_velocity,
        OptimizationResult3D::Infeasible { .. } => {
            let mut hyperplanes: Vec<S::Hyperplane> = Vec::with_capacity(planes.len());
            let mut i: usize = 0;
            while i < planes.len()
                invariant
                    i <= planes.len(),
                    hyperplanes.len() == i,
                    forall|k: int|
                        0 <= k < i ==> #[trigger] hyperplanes@[k] == S::spec_relax(&planes@[k]),
                decreases planes.len() - i,
            {
                hyperplanes.push(S::relax(&planes[i]));
                i += 1;
            }
            assert(hyperplanes@ =~= relaxed::<S>(planes@));
            let spherinder = S::spherinder(maximum_velocity);
            match incremental_optimization_4d(
                S::extend(preferred_velocity),
                &spherinder,
                hyperplanes.as_slice(),
            ) {
                OptimizationResult4D::Feasible { optimal_velocity } => S::truncate(optimal_velocity),
                OptimizationResult4D::Infeasible { last_optimal_velocity } => S::truncate(
                    last_optimal_velocity,
                ),
            }
        },
    }
}

/// Where the spatial problem has a solution, slack is not used: in exact
/// geometry the velocity returned then satisfies every plane.
pub proof fn lemma_optimal_velocity_satisfies_every_plane<S: VelocitySpace>(
    preferred_velocity: <S::Plane as Vec3Operations>::Point,
    maximum_velocity: S::Speed,
    planes: Seq<S::Plane>,
)
    requires
        geometry_is_exact_3d(S::spec_ball(maximum_velocity), planes),
        optimum_3d(preferred_velocity, S::spec_ball(maximum_velocity), planes) is Feasible,
    ensures
        satisfies_all_3d(
            planes,
            optimal_velocity_3d::<S>(preferred_velocity, maximum_velocity, planes),
        ),
{
    lemma_feasible_velocity_satisfies_every_plane(
        preferred_velocity,
        S::spec_ball(maximum_velocity),
        planes,
    );
}

/// A preferred velocity that is within the speed limit and satisfies every
/// plane is returned as it is.
pub proof fn lemma_preferred_velocity_is_kept<S: VelocitySpace>(
    preferred_velocity: <S::Plane as Vec3Operations>::Point,
    maximum_velocity: S::Speed,
    planes: Seq<S::Plane>,
)
    requires
        S::spec_ball(maximum_velocity).spec_constrain(preferred_velocity) == preferred_velocity,
        satisfies_all_3d(planes, preferred_velocity),
    ensures
        optimal_velocity_3d::<S>(preferred_velocity, maximum_velocity, planes)
            == preferred_velocity,
{
    lemma_unconstrained_optimum_3d(preferred_velocity, S::spec_ball(maximum_velocity), planes);
}

/// Whether a velocity that the spherinder holds, without its fourth
/// coordinate, is a velocity that the ball holds.
pub open spec fn truncation_is_in_bounds<S: VelocitySpace>(maximum_velocity: S::Speed) -> bool {
    forall|velocity: <S::Hyperplane as Vec4Operations>::Point|
        S::spec_spherinder(maximum_velocity).spec_constrain(velocity) == velocity
            ==> S::spec_ball(maximum_velocity).spec_constrain(
            #[trigger] S::spec_truncate(velocity),
        ) == S::spec_truncate(velocity)
}

/// The velocity returned is within the speed limit, whether the planes
/// could be met or not: in exact geometry the ball leaves it where it is.
pub proof fn lemma_optimal_velocity_is_within_the_speed_limit<S: VelocitySpace>(
    preferred_velocity: <S::Plane as Vec3Operations>::Point,
    maximum_velocity: S::Speed,
    planes: Seq<S::Plane>,
)
    requires
        geometry_is_exact_3d(S::spec_ball(maximum_velocity), planes),
        geometry_is_exact_4d(S::spec_spherinder(maximum_velocity), relaxed::<S>(planes)),
        truncation_is_in_bounds::<S>(maximum_velocity),
        S::spec_ball(maximum_velocity).spec_constrain(
            S::spec_ball(maximum_velocity).spec_constrain(preferred_velocity),
        ) == S::spec_ball(maximum_velocity).spec_constrain(preferred_velocity),
        S::spec_spherinder(maximum_velocity).spec_constrain(
            S::spec_spherinder(maximum_velocity).spec_constrain(S::spec_extend(preferred_velocity)),
        ) == S::spec_spherinder(maximum_velocity).spec_constrain(
            S::spec_extend(preferred_velocity),
        ),
    ensures
        S::spec_ball(maximum_velocity).spec_constrain(
            optimal_velocity_3d::<S>(preferred_velocity, maximum_velocity, planes),
        ) == optimal_velocity_3d::<S>(preferred_velocity, maximum_velocity, planes),
{
    let ball = S::spec_ball(maximum_velocity);
    let spherinder = S::spec_spherinder(maximum_velocity);
    lemma_velocity_found_is_in_bounds_3d(preferred_velocity, ball, planes);
    lemma_velocity_found_is_in_bounds_4d(
        S::spec_extend(preferred_velocity),
        spherinder,
        relaxed::<S>(planes),
    );
    match optimum_3d(preferred_velocity, ball, planes) {
        OptimizationResult3D::Feasible { optimal_velocity } => {
            assert(velocity_of_3d(optimum_3d(preferred_velocity, ball, planes))
                == optimal_velocity);
        },
        OptimizationResult3D::Infeasible { .. } => {
            let outcome = optimum_4d(
                S::spec_extend(preferred_velocity),
                spherinder,
                relaxed::<S>(planes),
            );
            let found = velocity_of_4d(outcome);
            assert(relaxed_velocity::<S>(preferred_velocity, maximum_velocity, planes)
                == S::spec_truncate(found));
            assert(ball.spec_constrain(S::spec_truncate(found)) == S::spec_truncate(found));
        },
    }
}

} // verus!
