//! The spatial level of the cascade: the velocity nearest to the preferred
//! one inside a bounding solid and a list of half-spaces.
//!
//! The planes are taken in the order given. While the velocity found so far
//! satisfies the next plane nothing changes. Otherwise the new velocity
//! lies on that plane: the bounding solid and every earlier half-space are
//! cut with it, the planar problem they make is solved in the plane's own
//! coordinates, and the answer is carried back into space. An earlier plane
//! that is parallel to the plane leaves nothing to cut it with; it is asked
//! instead whether it holds the point of the plane nearest to the velocity.
//! Where the plane misses the solid, where a parallel plane excludes the
//! plane, or where the planar problem is infeasible, the problem is
//! infeasible, and the velocity reached before is handed back.

use vstd::prelude::*;
use crate::half_plane::HalfPlaneOperations;
use crate::plane::{PlaneIntersecion, PlaneOperations};
use crate::points::{constrain_is_idempotent_3d, Vec2Operations, Vec3Operations};
use crate::solver_2d::{
    bounds_are_idempotent_2d,
    geometry_is_exact_2d,
    incremental_optimization_2d,
    lemma_feasible_velocity_satisfies_every_half_plane,
    lemma_velocity_found_is_in_bounds_2d,
    optimum_2d,
    velocity_of_2d,
    MaximumVelocityShape2D,
    OptimizationResult2D,
};

verus! {

/// The outcome of the spatial optimization.
#[derive(Debug)]
pub enum OptimizationResult3D<V> {
    /// Every plane is satisfied by `optimal_velocity`.
    Feasible { optimal_velocity: V },
    /// Some plane could not be satisfied; `last_optimal_velocity` is the
    /// velocity that had been reached when this was found.
    Infeasible { last_optimal_velocity: V },
}

/// A solid that bounds the velocity: it can pull a velocity into itself
/// and be cut by a plane into a planar bounding shape.
pub trait MaximumVelocityShape3D {
    /// A velocity in space.
    type Velocity: Copy;

    /// The cutting plane.
    type Plane;

    /// The planar bounding shape that a plane cuts out.
    type Section: MaximumVelocityShape2D;

    /// The velocity of the solid that stands for `velocity`.
    spec fn spec_constrain(&self, velocity: Self::Velocity) -> Self::Velocity;

    /// What `plane` cuts out of the solid.
    spec fn spec_project_on_plane(&self, plane: &Self::Plane) -> Option<Self::Section>;

    /// Constrains a velocity to the solid.
    fn constrain(&self, velocity: Self::Velocity) -> (constrained: Self::Velocity)
        ensures
            constrained == self.spec_constrain(velocity),
    ;

    /// Cuts the solid with `plane`. Returns `None` where they do not meet.
    fn project_on_plane(&self, plane: &Self::Plane) -> (section: Option<Self::Section>)
        ensures
            section == self.spec_project_on_plane(plane),
    ;
}

/// Every solid that a plane can cut bounds velocities.
impl<T> MaximumVelocityShape3D for T where T: Vec3Operations + PlaneIntersecion {
    type Velocity = <T as Vec3Operations>::Point;

    type Plane = <T as PlaneIntersecion>::Plane;

    type Section = <T as PlaneIntersecion>::Section;

    open spec fn spec_constrain(&self, velocity: Self::Velocity) -> Self::Velocity {
        Vec3Operations::spec_constrain(self, velocity)
    }

    open spec fn spec_project_on_plane(&self, plane: &Self::Plane) -> Option<Self::Section> {
        self.spec_intersect(plane)
    }

    fn constrain(&self, velocity: Self::Velocity) -> (constrained: Self::Velocity) {
        Vec3Operations::constrain(self, velocity)
    }

    fn project_on_plane(&self, plane: &Self::Plane) -> (section: Option<Self::Section>) {
        self.intersect(plane)
    }
}

/// The half-planes that the first `n` of `planes` leave on the boundary of
/// `plane`, in order; a plane parallel to `plane` leaves none.
pub open spec fn half_planes_on<P: PlaneOperations>(plane: P, planes: Seq<P>, n: nat) -> Seq<
    P::HalfPlane,
>
    decreases n,
{
    if n == 0 {
        Seq::empty()
    } else {
        let before = half_planes_on(plane, planes, (n - 1) as nat);
        match P::HalfPlane::spec_from_plane_intersection(&plane, &planes[n - 1]) {
            Some(half_plane) => before.push(half_plane),
            None => before,
        }
    }
}

/// Whether the planes among the first `n` that are parallel to `plane`,
/// and so leave no half-plane on its boundary, contain `point`, a point of
/// that boundary. One that does not contains no point of the boundary at
/// all.
pub open spec fn parallel_planes_allow<P: PlaneOperations>(
    plane: P,
    planes: Seq<P>,
    n: nat,
    point: P::Point,
) -> bool {
    forall|j: int|
        0 <= j < n ==> (#[trigger] P::HalfPlane::spec_from_plane_intersection(
            &plane,
            &planes[j],
        ) is None ==> planes[j].spec_contains(point))
}

/// The velocity on plane `i` that is nearest to `velocity` among those
/// inside `shape` that the planes before `i` allow, if there is one.
///
/// There is none where `shape` does not reach the plane, where an earlier
/// plane that is parallel to the plane excludes it, or where the planar
/// problem on the plane is infeasible.
pub open spec fn nearest_on_boundary_3d<B, P>(
    shape: B,
    planes: Seq<P>,
    i: int,
    velocity: P::Point,
) -> Option<P::Point> where
    P: PlaneOperations,
    B: MaximumVelocityShape3D<Velocity = P::Point, Plane = P>,
    B::Section: MaximumVelocityShape2D<
        Velocity = P::Point2,
        Scalar = <P::HalfPlane as Vec2Operations>::Scalar,
        Ray = <P::HalfPlane as HalfPlaneOperations>::Ray,
    >,
 {
    let plane = planes[i];
    match shape.spec_project_on_plane(&plane) {
        Some(shape_2d) => {
            let on_boundary = plane.spec_closest_point_and_normal(velocity).0;
            if parallel_planes_allow(plane, planes, i as nat, on_boundary) {
                match optimum_2d(
                    plane.spec_project_2d(on_boundary),
                    shape_2d,
                    half_planes_on(plane, planes, i as nat),
                ) {
                    OptimizationResult2D::Feasible { optimal_velocity } => Some(
                        plane.spec_project_3d(optimal_velocity),
                    ),
                    OptimizationResult2D::Infeasible { .. } => None,
                }
            } else {
                None
            }
        },
        None => None,
    }
}

/// The state of the optimization after the first `n` planes, started from
/// the velocity `start`.
pub open spec fn optimum_3d_after<B, P>(
    shape: B,
    planes: Seq<P>,
    start: P::Point,
    n: nat,
) -> OptimizationResult3D<P::Point> where
    P: PlaneOperations,
    B: MaximumVelocityShape3D<Velocity = P::Point, Plane = P>,
    B::Section: MaximumVelocityShape2D<
        Velocity = P::Point2,
        Scalar = <P::HalfPlane as Vec2Operations>::Scalar,
        Ray = <P::HalfPlane as HalfPlaneOperations>::Ray,
    >,

    decreases n,
{
    if n == 0 {
        OptimizationResult3D::Feasible { optimal_velocity: start }
    } else {
        match optimum_3d_after(shape, planes, start, (n - 1) as nat) {
            OptimizationResult3D::Feasible { optimal_velocity } => {
                if planes[n - 1].spec_contains(optimal_velocity) {
                    OptimizationResult3D::Feasible { optimal_velocity }
                } else {
                    match nearest_on_boundary_3d(shape, planes, n - 1, optimal_velocity) {
                        Some(moved) => OptimizationResult3D::Feasible { optimal_velocity: moved },
                        None => OptimizationResult3D::Infeasible {
                            last_optimal_velocity: optimal_velocity,
                        },
                    }
                }
            },
            infeasible => infeasible,
        }
    }
}

/// The outcome of the spatial optimization: the state after all the planes,
/// started from the preferred velocity constrained to `shape`.
pub open spec fn optimum_3d<B, P>(
    preferred_velocity: P::Point,
    shape: B,
    planes: Seq<P>,
) -> OptimizationResult3D<P::Point> where
    P: PlaneOperations,
    B: MaximumVelocityShape3D<Velocity = P::Point, Plane = P>,
    B::Section: MaximumVelocityShape2D<
        Velocity = P::Point2,
        Scalar = <P::HalfPlane as Vec2Operations>::Scalar,
        Ray = <P::HalfPlane as HalfPlaneOperations>::Ray,
    >,
 {
    optimum_3d_after(shape, planes, shape.spec_constrain(preferred_velocity), planes.len())
}

/// Once the optimization is infeasible it stays so, with the same velocity.
pub proof fn lemma_infeasible_stays_3d<B, P>(
    shape: B,
    planes: Seq<P>,
    start: P::Point,
    n: nat,
    m: nat,
) where
    P: PlaneOperations,
    B: MaximumVelocityShape3D<Velocity = P::Point, Plane = P>,
    B::Section: MaximumVelocityShape2D<
        Velocity = P::Point2,
        Scalar = <P::HalfPlane as Vec2Operations>::Scalar,
        Ray = <P::HalfPlane as HalfPlaneOperations>::Ray,
    >,

    requires
        n <= m,
        optimum_3d_after(shape, planes, start, n) is Infeasible,
    ensures
        optimum_3d_after(shape, planes, start, m) == optimum_3d_after(shape, planes, start, n),
    decreases m,
{
    if n < m {
        lemma_infeasible_stays_3d(shape, planes, start, n, (m - 1) as nat);
    }
}

/// Finds the velocity nearest to `preferred_velocity` inside
/// `bounding_shape` and the half-spaces of all of `planes`, taking the
/// planes in the order given.
///
/// The result is exactly `optimum_3d`: `Feasible` with the velocity found,
/// or `Infeasible`, as soon as one plane cannot be met, with the velocity
/// reached until then.
pub fn incremental_optimization_3d<B, P>(
    preferred_velocity: P::Point,
    bounding_shape: &B,
    planes: &[P],
) -> (result: OptimizationResult3D<P::Point>) where
    P: PlaneOperations,
    B: MaximumVelocityShape3D<Velocity = P::Point, Plane = P>,
    B::Section: MaximumVelocityShape2D<
        Velocity = P::Point2,
        Scalar = <P::HalfPlane as Vec2Operations>::Scalar,
        Ray = <P::HalfPlane as HalfPlaneOperations>::Ray,
    >,

    ensures
        result == optimum_3d(preferred_velocity, *bounding_shape, planes@),
{
    let ghost start = bounding_shape.spec_constrain(preferred_velocity);
    let mut optimal_velocity = bounding_shape.constrain(preferred_velocity);
    let mut i: usize = 0;
    while i < planes.len()
        invariant
            i <= planes.len(),
            optimum_3d_after(*bounding_shape, planes@, start, i as nat)
                == (OptimizationResult3D::Feasible { optimal_velocity }),
            start == bounding_shape.spec_constrain(preferred_velocity),
        ensures
            i == planes.len(),
        decreases planes.len() - i,
    {
        let plane = &planes[i];
        if !plane.contains(optimal_velocity) {
            // The new velocity lies on this plane: the planar problem that the
            // bounding shape and the earlier planes leave there decides where.
            let moved = match bounding_shape.project_on_plane(plane) {
                Some(bounding_shape_2d) => {
                    let (on_boundary, _) = plane.closest_point_and_normal(optimal_velocity);
                    let mut half_planes: Vec<P::HalfPlane> = Vec::new();
                    let mut parallel_planes_agree = true;
                    let mut j: usize = 0;
                    while j < i && parallel_planes_agree
                        invariant
                            j <= i,
                            i < planes.len(),
                            *plane == planes@[i as int],
                            parallel_planes_agree ==> parallel_planes_allow(
                                *plane,
                                planes@,
                                j as nat,
                                on_boundary,
                            ) && half_planes@ == half_planes_on(*plane, planes@, j as nat),
                            !parallel_planes_agree ==> !parallel_planes_allow(
                                *plane,
                                planes@,
                                i as nat,
                                on_boundary,
                            ),
                        decreases i - j,
                    {
                        match P::HalfPlane::from_plane_intersection(plane, &planes[j]) {
                            Some(half_plane) => {
                                half_planes.push(half_plane);
                            },
                            None => {
                                // A parallel plane leaves nothing to cut the boundary
                                // with: it holds all of it or none of it.
                                if !planes[j].contains(on_boundary) {
                                    parallel_planes_agree = false;
                                }
                            },
                        }
                        j += 1;
                    }
                    if parallel_planes_agree {
                        match incremental_optimization_2d(
                            plane.project_2d(on_boundary),
                            &bounding_shape_2d,
                            half_planes.as_slice(),
                        ) {
                            OptimizationResult2D::Feasible { optimal_velocity: on_plane } => Some(
                                plane.project_3d(on_plane),
                            ),
                            OptimizationResult2D::Infeasible { .. } => None,
                        }
                    } else {
                        None
                    }
                },
                None => None,
            };
            assert(moved == nearest_on_boundary_3d(
                *bounding_shape,
                planes@,
                i as int,
                optimal_velocity,
            ));
            match moved {
                Some(velocity) => {
                    optimal_velocity = velocity;
                },
                None => {
                    proof {
                        lemma_infeasible_stays_3d(
                            *bounding_shape,
                            planes@,
                            start,
                            (i + 1) as nat,
                            planes.len() as nat,
                        );
                    }
                    return OptimizationResult3D::Infeasible {
                        last_optimal_velocity: optimal_velocity,
                    };
                },
            }
        }
        i += 1;
    }
    OptimizationResult3D::Feasible { optimal_velocity }
}

/// Whether `velocity` satisfies the first `n` of `planes`.
pub open spec fn satisfies_first_3d<P: PlaneOperations>(
    planes: Seq<P>,
    n: int,
    velocity: P::Point,
) -> bool {
    forall|j: int| 0 <= j < n && j < planes.len() ==> (#[trigger] planes[j]).spec_contains(velocity)
}

/// Whether `velocity` satisfies every one of `planes`: whether it lies in
/// the region that they leave feasible.
pub open spec fn satisfies_all_3d<P: PlaneOperations>(planes: Seq<P>, velocity: P::Point) -> bool {
    satisfies_first_3d(planes, planes.len() as int, velocity)
}

/// Whether the geometry keeps the promise that the method rests on: a
/// velocity that satisfies the planes before `i` but not plane `i`, when it
/// is moved onto plane `i`, satisfies plane `i` and still those before it.
pub open spec fn moves_are_sound_3d<B, P>(shape: B, planes: Seq<P>) -> bool where
    P: PlaneOperations,
    B: MaximumVelocityShape3D<Velocity = P::Point, Plane = P>,
    B::Section: MaximumVelocityShape2D<
        Velocity = P::Point2,
        Scalar = <P::HalfPlane as Vec2Operations>::Scalar,
        Ray = <P::HalfPlane as HalfPlaneOperations>::Ray,
    >,
 {
    forall|i: int, velocity: P::Point|
        0 <= i < planes.len() && satisfies_first_3d(planes, i, velocity)
            && !planes[i].spec_contains(velocity) ==> match #[trigger] nearest_on_boundary_3d(
            shape,
            planes,
            i,
            velocity,
        ) {
            Some(moved) => satisfies_first_3d(planes, i + 1, moved),
            None => true,
        }
}

/// A further plane can only shrink the feasible region or leave it as it
/// is: what satisfies the longer list satisfies the shorter one.
pub proof fn lemma_feasible_region_shrinks_3d<P: PlaneOperations>(
    planes: Seq<P>,
    added: P,
    velocity: P::Point,
)
    requires
        satisfies_all_3d(planes.push(added), velocity),
    ensures
        satisfies_all_3d(planes, velocity),
        added.spec_contains(velocity),
{
    let longer = planes.push(added);
    assert(longer[planes.len() as int] == added);
    assert forall|j: int| 0 <= j < planes.len() implies (#[trigger] planes[j]).spec_contains(
        velocity,
    ) by {
        assert(longer[j] == planes[j]);
    }
}

/// Planes that the velocity satisfies from the start do not move it: where
/// the preferred velocity, constrained to the bounding shape, satisfies
/// every plane, it is the optimum.
pub proof fn lemma_unconstrained_optimum_3d<B, P>(
    preferred_velocity: P::Point,
    shape: B,
    planes: Seq<P>,
) where
    P: PlaneOperations,
    B: MaximumVelocityShape3D<Velocity = P::Point, Plane = P>,
    B::Section: MaximumVelocityShape2D<
        Velocity = P::Point2,
        Scalar = <P::HalfPlane as Vec2Operations>::Scalar,
        Ray = <P::HalfPlane as HalfPlaneOperations>::Ray,
    >,
    requires
        satisfies_all_3d(planes, shape.spec_constrain(preferred_velocity)),
    ensures
        optimum_3d(preferred_velocity, shape, planes) == (OptimizationResult3D::Feasible {
            optimal_velocity: shape.spec_constrain(preferred_velocity),
        }),
{
    lemma_unconstrained_prefix_3d(
        shape,
        planes,
        shape.spec_constrain(preferred_velocity),
        planes.len(),
    );
}

/// The same, for the state after the first `n` constraints.
proof fn lemma_unconstrained_prefix_3d<B, P>(
    shape: B,
    planes: Seq<P>,
    start: P::Point,
    n: nat,
) where
    P: PlaneOperations,
    B: MaximumVelocityShape3D<Velocity = P::Point, Plane = P>,
    B::Section: MaximumVelocityShape2D<
        Velocity = P::Point2,
        Scalar = <P::HalfPlane as Vec2Operations>::Scalar,
        Ray = <P::HalfPlane as HalfPlaneOperations>::Ray,
    >,
    requires
        n <= planes.len(),
        satisfies_all_3d(planes, start),
    ensures
        optimum_3d_after(shape, planes, start, n) == (OptimizationResult3D::Feasible {
            optimal_velocity: start,
        }),
    decreases n,
{
    if n > 0 {
        lemma_unconstrained_prefix_3d(shape, planes, start, (n - 1) as nat);
        assert(planes[n - 1].spec_contains(start));
    }
}

/// A feasible outcome is feasible: where every move onto a plane is sound,
/// the velocity of a `Feasible` outcome satisfies every plane.
pub proof fn lemma_feasible_optimum_satisfies_all_3d<B, P>(
    preferred_velocity: P::Point,
    shape: B,
    planes: Seq<P>,
) where
    P: PlaneOperations,
    B: MaximumVelocityShape3D<Velocity = P::Point, Plane = P>,
    B::Section: MaximumVelocityShape2D<
        Velocity = P::Point2,
        Scalar = <P::HalfPlane as Vec2Operations>::Scalar,
        Ray = <P::HalfPlane as HalfPlaneOperations>::Ray,
    >,
    requires
        moves_are_sound_3d(shape, planes),
    ensures
        optimum_3d(preferred_velocity, shape, planes) matches OptimizationResult3D::Feasible {
            optimal_velocity,
        } ==> satisfies_all_3d(planes, optimal_velocity),
{
    lemma_feasible_prefix_satisfies_3d(
        shape,
        planes,
        shape.spec_constrain(preferred_velocity),
        planes.len(),
    );
}

/// The same, for the state after the first `n` constraints: a feasible state satisfies
/// those `n`.
proof fn lemma_feasible_prefix_satisfies_3d<B, P>(
    shape: B,
    planes: Seq<P>,
    start: P::Point,
    n: nat,
) where
    P: PlaneOperations,
    B: MaximumVelocityShape3D<Velocity = P::Point, Plane = P>,
    B::Section: MaximumVelocityShape2D<
        Velocity = P::Point2,
        Scalar = <P::HalfPlane as Vec2Operations>::Scalar,
        Ray = <P::HalfPlane as HalfPlaneOperations>::Ray,
    >,
    requires
        n <= planes.len(),
        moves_are_sound_3d(shape, planes),
    ensures
        optimum_3d_after(shape, planes, start, n) matches OptimizationResult3D::Feasible {
            optimal_velocity,
        } ==> satisfies_first_3d(planes, n as int, optimal_velocity),
    decreases n,
{
    if n > 0 {
        lemma_feasible_prefix_satisfies_3d(shape, planes, start, (n - 1) as nat);
        match optimum_3d_after(shape, planes, start, (n - 1) as nat) {
            OptimizationResult3D::Feasible { optimal_velocity } => {
                if !planes[n - 1].spec_contains(optimal_velocity) {
                    assert(nearest_on_boundary_3d(shape, planes, n - 1, optimal_velocity)
                        matches Some(moved) ==> satisfies_first_3d(planes, n as int, moved));
                }
            },
            OptimizationResult3D::Infeasible { .. } => {},
        }
    }
}

/// The half-planes on a plane's boundary are made from the planes before
/// it alone.
proof fn lemma_half_planes_read_a_prefix<P: PlaneOperations>(
    plane: P,
    planes: Seq<P>,
    longer: Seq<P>,
    n: nat,
)
    requires
        n <= planes.len() <= longer.len(),
        forall|j: int| 0 <= j < planes.len() ==> planes[j] == longer[j],
    ensures
        half_planes_on(plane, longer, n) == half_planes_on(plane, planes, n),
    decreases n,
{
    if n > 0 {
        lemma_half_planes_read_a_prefix(plane, planes, longer, (n - 1) as nat);
    }
}

/// Whether the parallel planes among the first `n` allow a point does not
/// depend on the planes that follow.
proof fn lemma_parallel_planes_read_a_prefix<P: PlaneOperations>(
    plane: P,
    planes: Seq<P>,
    longer: Seq<P>,
    n: nat,
    point: P::Point,
)
    requires
        n <= planes.len() <= longer.len(),
        forall|j: int| 0 <= j < planes.len() ==> planes[j] == longer[j],
    ensures
        parallel_planes_allow(plane, longer, n, point) == parallel_planes_allow(
            plane,
            planes,
            n,
            point,
        ),
{
    assert forall|j: int|
        #![trigger P::HalfPlane::spec_from_plane_intersection(&plane, &longer[j])]
        #![trigger P::HalfPlane::spec_from_plane_intersection(&plane, &planes[j])]
        0 <= j < n implies planes[j] == longer[j] by {}
}

/// The optimization is incremental: the state after the first `n` planes
/// does not depend on those that follow.
pub proof fn lemma_later_planes_do_not_matter<B, P>(
    shape: B,
    planes: Seq<P>,
    longer: Seq<P>,
    start: P::Point,
    n: nat,
) where
    P: PlaneOperations,
    B: MaximumVelocityShape3D<Velocity = P::Point, Plane = P>,
    B::Section: MaximumVelocityShape2D<
        Velocity = P::Point2,
        Scalar = <P::HalfPlane as Vec2Operations>::Scalar,
        Ray = <P::HalfPlane as HalfPlaneOperations>::Ray,
    >,
    requires
        n <= planes.len() <= longer.len(),
        forall|j: int| 0 <= j < planes.len() ==> planes[j] == longer[j],
    ensures
        optimum_3d_after(shape, longer, start, n) == optimum_3d_after(shape, planes, start, n),
    decreases n,
{
    if n > 0 {
        lemma_later_planes_do_not_matter(shape, planes, longer, start, (n - 1) as nat);
        lemma_half_planes_read_a_prefix(planes[n - 1], planes, longer, (n - 1) as nat);
        match optimum_3d_after(shape, planes, start, (n - 1) as nat) {
            OptimizationResult3D::Feasible { optimal_velocity } => {
                lemma_parallel_planes_read_a_prefix(
                    planes[n - 1],
                    planes,
                    longer,
                    (n - 1) as nat,
                    planes[n - 1].spec_closest_point_and_normal(optimal_velocity).0,
                );
            },
            OptimizationResult3D::Infeasible { .. } => {},
        }
    }
}

/// A further plane never makes an infeasible problem feasible, and leaves
/// the optimum alone where the optimum satisfies it.
pub proof fn lemma_added_plane<B, P>(
    preferred_velocity: P::Point,
    shape: B,
    planes: Seq<P>,
    added: P,
) where
    P: PlaneOperations,
    B: MaximumVelocityShape3D<Velocity = P::Point, Plane = P>,
    B::Section: MaximumVelocityShape2D<
        Velocity = P::Point2,
        Scalar = <P::HalfPlane as Vec2Operations>::Scalar,
        Ray = <P::HalfPlane as HalfPlaneOperations>::Ray,
    >,
    ensures
        match optimum_3d(preferred_velocity, shape, planes) {
            OptimizationResult3D::Feasible { optimal_velocity } => added.spec_contains(
                optimal_velocity,
            ) ==> optimum_3d(preferred_velocity, shape, planes.push(added)) == optimum_3d(
                preferred_velocity,
                shape,
                planes,
            ),
            infeasible => optimum_3d(preferred_velocity, shape, planes.push(added)) == infeasible,
        },
{
    let longer = planes.push(added);
    lemma_later_planes_do_not_matter(
        shape,
        planes,
        longer,
        shape.spec_constrain(preferred_velocity),
        planes.len(),
    );
    assert(longer[planes.len() as int] == added);
}

/// Whether every point of a plane's boundary, taken in the plane's own
/// coordinates and carried back into space, satisfies the plane.
pub open spec fn boundaries_are_inside_3d<P: PlaneOperations>(planes: Seq<P>) -> bool {
    forall|i: int, on_plane: P::Point2|
        0 <= i < planes.len() ==> planes[i].spec_contains(
            #[trigger] planes[i].spec_project_3d(on_plane),
        )
}

/// Whether the half-plane that an earlier plane leaves on a later plane's
/// boundary tells the truth: a point of the boundary that the half-plane
/// contains satisfies the earlier plane.
pub open spec fn sections_are_faithful_3d<P: PlaneOperations>(planes: Seq<P>) -> bool {
    forall|i: int, j: int, on_plane: P::Point2|
        0 <= j < i < planes.len() ==> match #[trigger] P::HalfPlane::spec_from_plane_intersection(
            &planes[i],
            &planes[j],
        ) {
            Some(half_plane) => half_plane.spec_contains(on_plane) ==> planes[j].spec_contains(
                #[trigger] planes[i].spec_project_3d(on_plane),
            ),
            None => true,
        }
}

/// Whether an earlier plane that leaves no half-plane on a later plane's
/// boundary, being parallel to it, contains every point of that boundary
/// if it contains one.
pub open spec fn parallel_planes_are_alike_3d<P: PlaneOperations>(planes: Seq<P>) -> bool {
    forall|i: int, j: int, on_plane: P::Point2, velocity: P::Point|
        #![trigger
            P::HalfPlane::spec_from_plane_intersection(&planes[i], &planes[j]),
            planes[i].spec_project_3d(on_plane),
            planes[i].spec_closest_point_and_normal(velocity),
        ]
        0 <= j < i < planes.len() && P::HalfPlane::spec_from_plane_intersection(
            &planes[i],
            &planes[j],
        ) is None && planes[j].spec_contains(planes[i].spec_closest_point_and_normal(velocity).0)
            ==> planes[j].spec_contains(planes[i].spec_project_3d(on_plane))
}

/// Whether constraining a velocity to `shape` a second time changes
/// nothing, for every velocity.
pub open spec fn bounds_are_idempotent_3d<B: MaximumVelocityShape3D>(shape: B) -> bool {
    forall|velocity: B::Velocity| #[trigger]
        shape.spec_constrain(shape.spec_constrain(velocity)) == shape.spec_constrain(velocity)
}

/// Whether what `plane` cuts out of `shape` is a part of `shape`: a point
/// that the section holds, carried back into space, is a point that
/// `shape` holds.
pub open spec fn section_is_in_bounds_3d<B, P>(shape: B, plane: P, section: B::Section) -> bool where
    P: PlaneOperations,
    B: MaximumVelocityShape3D<Velocity = P::Point, Plane = P>,
    B::Section: MaximumVelocityShape2D<
        Velocity = P::Point2,
        Scalar = <P::HalfPlane as Vec2Operations>::Scalar,
        Ray = <P::HalfPlane as HalfPlaneOperations>::Ray,
    >,
 {
    forall|on_plane: P::Point2|
        section.spec_constrain(on_plane) == on_plane ==> shape.spec_constrain(
            #[trigger] plane.spec_project_3d(on_plane),
        ) == plane.spec_project_3d(on_plane)
}

/// Whether the bounding solid, the planes, and what they leave on each
/// other behave as those of exact geometry do, as far as the optimization
/// relies on it.
pub open spec fn geometry_is_exact_3d<B, P>(shape: B, planes: Seq<P>) -> bool where
    P: PlaneOperations,
    B: MaximumVelocityShape3D<Velocity = P::Point, Plane = P>,
    B::Section: MaximumVelocityShape2D<
        Velocity = P::Point2,
        Scalar = <P::HalfPlane as Vec2Operations>::Scalar,
        Ray = <P::HalfPlane as HalfPlaneOperations>::Ray,
    >,
 {
    &&& boundaries_are_inside_3d(planes)
    &&& sections_are_faithful_3d(planes)
    &&& parallel_planes_are_alike_3d(planes)
    &&& forall|i: int|
        0 <= i < planes.len() ==> match #[trigger] shape.spec_project_on_plane(&planes[i]) {
            Some(shape_2d) => {
                &&& geometry_is_exact_2d(shape_2d, half_planes_on(planes[i], planes, i as nat))
                &&& bounds_are_idempotent_2d(shape_2d)
                &&& section_is_in_bounds_3d(shape, planes[i], shape_2d)
            },
            None => true,
        }
}

/// Whether every move onto a plane ends in the bounding solid.
pub open spec fn moves_stay_in_bounds_3d<B, P>(shape: B, planes: Seq<P>) -> bool where
    P: PlaneOperations,
    B: MaximumVelocityShape3D<Velocity = P::Point, Plane = P>,
    B::Section: MaximumVelocityShape2D<
        Velocity = P::Point2,
        Scalar = <P::HalfPlane as Vec2Operations>::Scalar,
        Ray = <P::HalfPlane as HalfPlaneOperations>::Ray,
    >,
 {
    forall|i: int, velocity: P::Point|
        0 <= i < planes.len() ==> match #[trigger] nearest_on_boundary_3d(
            shape,
            planes,
            i,
            velocity,
        ) {
            Some(moved) => shape.spec_constrain(moved) == moved,
            None => true,
        }
}

/// The velocity that an outcome carries, feasible or not.
pub open spec fn velocity_of_3d<V>(outcome: OptimizationResult3D<V>) -> V {
    match outcome {
        OptimizationResult3D::Feasible { optimal_velocity } => optimal_velocity,
        OptimizationResult3D::Infeasible { last_optimal_velocity } => last_optimal_velocity,
    }
}

/// Every half-plane that one of the first `n` planes leaves on the boundary
/// of `plane` is among `half_planes_on`.
proof fn lemma_half_plane_is_listed<P: PlaneOperations>(plane: P, planes: Seq<P>, n: nat, j: int)
    requires
        0 <= j < n <= planes.len(),
        P::HalfPlane::spec_from_plane_intersection(&plane, &planes[j]) is Some,
    ensures
        half_planes_on(plane, planes, n).contains(
            P::HalfPlane::spec_from_plane_intersection(&plane, &planes[j])->0,
        ),
    decreases n,
{
    let before = half_planes_on(plane, planes, (n - 1) as nat);
    let listed = half_planes_on(plane, planes, n);
    if j < n - 1 {
        lemma_half_plane_is_listed(plane, planes, (n - 1) as nat, j);
        let half_plane = P::HalfPlane::spec_from_plane_intersection(&plane, &planes[j])->0;
        let k = choose|k: int| 0 <= k < before.len() && before[k] == half_plane;
        assert(listed[k] == half_plane);
    } else {
        assert(listed[before.len() as int] == P::HalfPlane::spec_from_plane_intersection(
            &plane,
            &planes[j],
        )->0);
    }
}

/// In exact geometry every move onto a plane is sound and ends in the
/// bounding solid.
pub proof fn lemma_geometry_is_sound_3d<B, P>(shape: B, planes: Seq<P>) where
    P: PlaneOperations,
    B: MaximumVelocityShape3D<Velocity = P::Point, Plane = P>,
    B::Section: MaximumVelocityShape2D<
        Velocity = P::Point2,
        Scalar = <P::HalfPlane as Vec2Operations>::Scalar,
        Ray = <P::HalfPlane as HalfPlaneOperations>::Ray,
    >,
    requires
        geometry_is_exact_3d(shape, planes),
    ensures
        moves_are_sound_3d(shape, planes),
        moves_stay_in_bounds_3d(shape, planes),
{
    assert forall|i: int, velocity: P::Point|
        0 <= i < planes.len() implies match #[trigger] nearest_on_boundary_3d(
        shape,
        planes,
        i,
        velocity,
    ) {
        Some(moved) => satisfies_first_3d(planes, i + 1, moved) && shape.spec_constrain(moved)
            == moved,
        None => true,
    } by {
        let plane = planes[i];
        match shape.spec_project_on_plane(&plane) {
            Some(shape_2d) => {
                let on_boundary = plane.spec_closest_point_and_normal(velocity).0;
                let on_plane = plane.spec_project_2d(on_boundary);
                let half_planes = half_planes_on(plane, planes, i as nat);
                if parallel_planes_allow(plane, planes, i as nat, on_boundary) {
                    lemma_feasible_velocity_satisfies_every_half_plane(
                        on_plane,
                        shape_2d,
                        half_planes,
                    );
                    assert(shape_2d.spec_constrain(shape_2d.spec_constrain(on_plane))
                        == shape_2d.spec_constrain(on_plane));
                    lemma_velocity_found_is_in_bounds_2d(on_plane, shape_2d, half_planes);
                    match optimum_2d(on_plane, shape_2d, half_planes) {
                        OptimizationResult2D::Feasible { optimal_velocity } => {
                            let moved = plane.spec_project_3d(optimal_velocity);
                            assert(velocity_of_2d(optimum_2d(on_plane, shape_2d, half_planes))
                                == optimal_velocity);
                            assert(shape.spec_constrain(moved) == moved);
                            assert forall|j: int| 0 <= j < i + 1 implies (
                            #[trigger] planes[j]).spec_contains(moved) by {
                                if j < i {
                                    match P::HalfPlane::spec_from_plane_intersection(
                                        &planes[i],
                                        &planes[j],
                                    ) {
                                        Some(half_plane) => {
                                            lemma_half_plane_is_listed(plane, planes, i as nat, j);
                                            let k = choose|k: int|
                                                0 <= k < half_planes.len() && half_planes[k]
                                                    == half_plane;
                                            assert(half_planes[k].spec_contains(optimal_velocity));
                                        },
                                        None => {
                                            assert(planes[j].spec_contains(on_boundary));
                                        },
                                    }
                                }
                            }
                        },
                        OptimizationResult2D::Infeasible { .. } => {},
                    }
                }
            },
            None => {},
        }
    }
}

/// Feasibility: in exact geometry the velocity of a `Feasible` outcome
/// satisfies every plane of the list.
pub proof fn lemma_feasible_velocity_satisfies_every_plane<B, P>(
    preferred_velocity: P::Point,
    shape: B,
    planes: Seq<P>,
) where
    P: PlaneOperations,
    B: MaximumVelocityShape3D<Velocity = P::Point, Plane = P>,
    B::Section: MaximumVelocityShape2D<
        Velocity = P::Point2,
        Scalar = <P::HalfPlane as Vec2Operations>::Scalar,
        Ray = <P::HalfPlane as HalfPlaneOperations>::Ray,
    >,
    requires
        geometry_is_exact_3d(shape, planes),
    ensures
        optimum_3d(preferred_velocity, shape, planes) matches OptimizationResult3D::Feasible {
            optimal_velocity,
        } ==> satisfies_all_3d(planes, optimal_velocity),
{
    lemma_geometry_is_sound_3d(shape, planes);
    lemma_feasible_optimum_satisfies_all_3d(preferred_velocity, shape, planes);
}

/// One more plane makes nothing feasible and frees no velocity: in exact
/// geometry, where the longer list has a feasible outcome, so has the
/// shorter one, and the velocity found for the longer list satisfies every
/// plane of the shorter list and the plane that was added.
pub proof fn lemma_longer_list_is_no_easier_3d<B, P>(
    preferred_velocity: P::Point,
    shape: B,
    planes: Seq<P>,
    added: P,
) where
    P: PlaneOperations,
    B: MaximumVelocityShape3D<Velocity = P::Point, Plane = P>,
    B::Section: MaximumVelocityShape2D<
        Velocity = P::Point2,
        Scalar = <P::HalfPlane as Vec2Operations>::Scalar,
        Ray = <P::HalfPlane as HalfPlaneOperations>::Ray,
    >,
    requires
        geometry_is_exact_3d(shape, planes.push(added)),
    ensures
        optimum_3d(preferred_velocity, shape, planes.push(added))
            matches OptimizationResult3D::Feasible { optimal_velocity } ==> {
            &&& optimum_3d(preferred_velocity, shape, planes) is Feasible
            &&& satisfies_all_3d(planes, optimal_velocity)
            &&& added.spec_contains(optimal_velocity)
        },
{
    lemma_added_plane(preferred_velocity, shape, planes, added);
    lemma_feasible_velocity_satisfies_every_plane(preferred_velocity, shape, planes.push(added));
    match optimum_3d(preferred_velocity, shape, planes.push(added)) {
        OptimizationResult3D::Feasible { optimal_velocity } => {
            lemma_feasible_region_shrinks_3d(planes, added, optimal_velocity);
        },
        OptimizationResult3D::Infeasible { .. } => {},
    }
}

/// The velocity found lies in the bounding solid: where every move ends in
/// the solid and constraining the preferred velocity a second time changes
/// nothing, the solid leaves the velocity of the outcome, feasible or not,
/// where it is.
pub proof fn lemma_optimum_is_in_bounds_3d<B, P>(
    preferred_velocity: P::Point,
    shape: B,
    planes: Seq<P>,
) where
    P: PlaneOperations,
    B: MaximumVelocityShape3D<Velocity = P::Point, Plane = P>,
    B::Section: MaximumVelocityShape2D<
        Velocity = P::Point2,
        Scalar = <P::HalfPlane as Vec2Operations>::Scalar,
        Ray = <P::HalfPlane as HalfPlaneOperations>::Ray,
    >,
    requires
        moves_stay_in_bounds_3d(shape, planes),
        shape.spec_constrain(shape.spec_constrain(preferred_velocity)) == shape.spec_constrain(
            preferred_velocity,
        ),
    ensures
        shape.spec_constrain(velocity_of_3d(optimum_3d(preferred_velocity, shape, planes)))
            == velocity_of_3d(optimum_3d(preferred_velocity, shape, planes)),
{
    lemma_prefix_is_in_bounds_3d(
        shape,
        planes,
        shape.spec_constrain(preferred_velocity),
        planes.len(),
    );
}

/// The same, for the state after the first `n` constraints.
proof fn lemma_prefix_is_in_bounds_3d<B, P>(shape: B, planes: Seq<P>, start: P::Point, n: nat) where
    P: PlaneOperations,
    B: MaximumVelocityShape3D<Velocity = P::Point, Plane = P>,
    B::Section: MaximumVelocityShape2D<
        Velocity = P::Point2,
        Scalar = <P::HalfPlane as Vec2Operations>::Scalar,
        Ray = <P::HalfPlane as HalfPlaneOperations>::Ray,
    >,
    requires
        n <= planes.len(),
        moves_stay_in_bounds_3d(shape, planes),
        shape.spec_constrain(start) == start,
    ensures
        shape.spec_constrain(velocity_of_3d(optimum_3d_after(shape, planes, start, n)))
            == velocity_of_3d(optimum_3d_after(shape, planes, start, n)),
    decreases n,
{
    if n > 0 {
        lemma_prefix_is_in_bounds_3d(shape, planes, start, (n - 1) as nat);
        match optimum_3d_after(shape, planes, start, (n - 1) as nat) {
            OptimizationResult3D::Feasible { optimal_velocity } => {
                if !planes[n - 1].spec_contains(optimal_velocity) {
                    assert(nearest_on_boundary_3d(shape, planes, n - 1, optimal_velocity)
                        matches Some(moved) ==> shape.spec_constrain(moved) == moved);
                }
            },
            OptimizationResult3D::Infeasible { .. } => {},
        }
    }
}

/// In exact geometry the velocity found lies in the bounding solid: the
/// solid leaves the velocity of the outcome, feasible or not, where it is.
pub proof fn lemma_velocity_found_is_in_bounds_3d<B, P>(
    preferred_velocity: P::Point,
    shape: B,
    planes: Seq<P>,
) where
    P: PlaneOperations,
    B: MaximumVelocityShape3D<Velocity = P::Point, Plane = P>,
    B::Section: MaximumVelocityShape2D<
        Velocity = P::Point2,
        Scalar = <P::HalfPlane as Vec2Operations>::Scalar,
        Ray = <P::HalfPlane as HalfPlaneOperations>::Ray,
    >,
    requires
        geometry_is_exact_3d(shape, planes),
        shape.spec_constrain(shape.spec_constrain(preferred_velocity)) == shape.spec_constrain(
            preferred_velocity,
        ),
    ensures
        shape.spec_constrain(velocity_of_3d(optimum_3d(preferred_velocity, shape, planes)))
            == velocity_of_3d(optimum_3d(preferred_velocity, shape, planes)),
{
    lemma_geometry_is_sound_3d(shape, planes);
    lemma_optimum_is_in_bounds_3d(preferred_velocity, shape, planes);
}

/// Where constraining the preferred velocity to the bounding shape a second
/// time changes nothing, the optimization may as well start from the
/// constrained velocity: the outcome is the same.
pub proof fn lemma_constrained_preference_is_as_good_3d<B, P>(
    preferred_velocity: P::Point,
    shape: B,
    planes: Seq<P>,
) where
    P: PlaneOperations,
    B: MaximumVelocityShape3D<Velocity = P::Point, Plane = P>,
    B::Section: MaximumVelocityShape2D<
        Velocity = P::Point2,
        Scalar = <P::HalfPlane as Vec2Operations>::Scalar,
        Ray = <P::HalfPlane as HalfPlaneOperations>::Ray,
    >,

    requires
        shape.spec_constrain(shape.spec_constrain(preferred_velocity)) == shape.spec_constrain(
            preferred_velocity,
        ),
    ensures
        optimum_3d(shape.spec_constrain(preferred_velocity), shape, planes) == optimum_3d(
            preferred_velocity,
            shape,
            planes,
        ),
{
}

/// Whether plane `k` is where the optimization gave up with `velocity`:
/// the velocity satisfies every plane before `k` but not plane `k`, and
/// nothing of the boundary of `k` is left to move to.
pub open spec fn gave_up_at_3d<B, P>(
    shape: B,
    planes: Seq<P>,
    k: int,
    velocity: P::Point,
) -> bool where
    P: PlaneOperations,
    B: MaximumVelocityShape3D<Velocity = P::Point, Plane = P>,
    B::Section: MaximumVelocityShape2D<
        Velocity = P::Point2,
        Scalar = <P::HalfPlane as Vec2Operations>::Scalar,
        Ray = <P::HalfPlane as HalfPlaneOperations>::Ray,
    >,
 {
    &&& 0 <= k < planes.len()
    &&& satisfies_first_3d(planes, k, velocity)
    &&& !planes[k].spec_contains(velocity)
    &&& nearest_on_boundary_3d(shape, planes, k, velocity) is None
}

/// An infeasible outcome hands back the best of what was reached: where
/// every move onto a boundary is sound, the velocity of an `Infeasible`
/// outcome satisfies every plane before the one that could not be met.
pub proof fn lemma_infeasible_velocity_satisfies_the_earlier_3d<B, P>(
    preferred_velocity: P::Point,
    shape: B,
    planes: Seq<P>,
) where
    P: PlaneOperations,
    B: MaximumVelocityShape3D<Velocity = P::Point, Plane = P>,
    B::Section: MaximumVelocityShape2D<
        Velocity = P::Point2,
        Scalar = <P::HalfPlane as Vec2Operations>::Scalar,
        Ray = <P::HalfPlane as HalfPlaneOperations>::Ray,
    >,
    requires
        moves_are_sound_3d(shape, planes),
    ensures
        optimum_3d(preferred_velocity, shape, planes) matches OptimizationResult3D::Infeasible {
            last_optimal_velocity,
        } ==> exists|k: int| #[trigger] gave_up_at_3d(shape, planes, k, last_optimal_velocity),
{
    lemma_infeasible_prefix_gave_up_3d(
        shape,
        planes,
        shape.spec_constrain(preferred_velocity),
        planes.len(),
    );
}

/// The same, for the state after the first `n` constraints.
proof fn lemma_infeasible_prefix_gave_up_3d<B, P>(
    shape: B,
    planes: Seq<P>,
    start: P::Point,
    n: nat,
) where
    P: PlaneOperations,
    B: MaximumVelocityShape3D<Velocity = P::Point, Plane = P>,
    B::Section: MaximumVelocityShape2D<
        Velocity = P::Point2,
        Scalar = <P::HalfPlane as Vec2Operations>::Scalar,
        Ray = <P::HalfPlane as HalfPlaneOperations>::Ray,
    >,
    requires
        n <= planes.len(),
        moves_are_sound_3d(shape, planes),
    ensures
        optimum_3d_after(shape, planes, start, n) is Infeasible ==> exists|k: int| #[trigger]
            gave_up_at_3d(
                shape,
                planes,
                k,
                optimum_3d_after(shape, planes, start, n)->last_optimal_velocity,
            ),
    decreases n,
{
    let now = optimum_3d_after(shape, planes, start, n);
    if n > 0 {
        lemma_infeasible_prefix_gave_up_3d(shape, planes, start, (n - 1) as nat);
        lemma_feasible_prefix_satisfies_3d(shape, planes, start, (n - 1) as nat);
        match optimum_3d_after(shape, planes, start, (n - 1) as nat) {
            OptimizationResult3D::Feasible { optimal_velocity } => {
                if now is Infeasible {
                    assert(now->last_optimal_velocity == optimal_velocity);
                    assert(gave_up_at_3d(shape, planes, n - 1, optimal_velocity));
                }
            },
            OptimizationResult3D::Infeasible { last_optimal_velocity } => {
                assert(now->last_optimal_velocity == last_optimal_velocity);
                let k = choose|k: int| #[trigger]
                    gave_up_at_3d(shape, planes, k, last_optimal_velocity);
                assert(gave_up_at_3d(shape, planes, k, last_optimal_velocity));
            },
        }
    }
}

/// The optimum is stable: where every move onto a boundary is sound and
/// ends in the bounding shape, and constraining the preferred velocity a
/// second time changes nothing, the optimization started from the velocity
/// of a `Feasible` outcome finds it again.
pub proof fn lemma_optimum_is_stable_3d<B, P>(
    preferred_velocity: P::Point,
    shape: B,
    planes: Seq<P>,
) where
    P: PlaneOperations,
    B: MaximumVelocityShape3D<Velocity = P::Point, Plane = P>,
    B::Section: MaximumVelocityShape2D<
        Velocity = P::Point2,
        Scalar = <P::HalfPlane as Vec2Operations>::Scalar,
        Ray = <P::HalfPlane as HalfPlaneOperations>::Ray,
    >,
    requires
        moves_are_sound_3d(shape, planes),
        moves_stay_in_bounds_3d(shape, planes),
        shape.spec_constrain(shape.spec_constrain(preferred_velocity)) == shape.spec_constrain(
            preferred_velocity,
        ),
    ensures
        optimum_3d(preferred_velocity, shape, planes) matches OptimizationResult3D::Feasible {
            optimal_velocity,
        } ==> optimum_3d(optimal_velocity, shape, planes) == optimum_3d(
            preferred_velocity,
            shape,
            planes,
        ),
{
    lemma_feasible_optimum_satisfies_all_3d(preferred_velocity, shape, planes);
    lemma_optimum_is_in_bounds_3d(preferred_velocity, shape, planes);
    match optimum_3d(preferred_velocity, shape, planes) {
        OptimizationResult3D::Feasible { optimal_velocity } => {
            lemma_unconstrained_optimum_3d(optimal_velocity, shape, planes);
        },
        OptimizationResult3D::Infeasible { .. } => {},
    }
}

/// A shape whose `constrain` is idempotent bounds velocities idempotently.
pub proof fn lemma_bounds_inherit_idempotence_3d<T>(shape: T) where T: Vec3Operations + PlaneIntersecion
    requires
        constrain_is_idempotent_3d(shape),
    ensures
        bounds_are_idempotent_3d(shape),
{
    assert forall|velocity: <T as Vec3Operations>::Point| #[trigger]
        MaximumVelocityShape3D::spec_constrain(
            &shape,
            MaximumVelocityShape3D::spec_constrain(&shape, velocity),
        )
            == MaximumVelocityShape3D::spec_constrain(&shape, velocity) by {
        assert(Vec3Operations::spec_constrain(&shape, Vec3Operations::spec_constrain(&shape, velocity))
            == Vec3Operations::spec_constrain(&shape, velocity));
    }
}

} // verus!
