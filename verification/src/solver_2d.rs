//! The planar base of the cascade: the velocity nearest to the preferred
//! one inside a bounding shape and a list of half-planes.
//!
//! The half-planes are taken in the order given. While the velocity found
//! so far satisfies the next half-plane nothing changes. Otherwise the new
//! velocity lies on that half-plane's boundary line: the stretch of the
//! line inside the bounding shape is narrowed by every earlier half-plane
//! in turn, and the velocity moves to the nearest point of what is left.
//! Where nothing is left the problem is infeasible, and the velocity
//! reached before is handed back.

use vstd::prelude::*;
use crate::half_plane::HalfPlaneOperations;
use crate::line_segment_2d::{
    clip_max,
    clip_min,
    clipped_max,
    clipped_min,
    settle,
    settled,
    LineSegment2DOperations,
};
use crate::points::{constrain_is_idempotent_2d, Vec2Operations};
use crate::ray_2d::{Ray2DIntersection, Ray2DIntersectionResult};

verus! {

/// The outcome of the planar optimization.
#[derive(Debug)]
pub enum OptimizationResult2D<V> {
    /// Every half-plane is satisfied by `optimal_velocity`.
    Feasible { optimal_velocity: V },
    /// Some half-plane could not be satisfied; `last_optimal_velocity` is
    /// the velocity that had been reached when this was found.
    Infeasible { last_optimal_velocity: V },
}

/// A region of the plane that bounds the velocity: it can pull a velocity
/// into itself and say which stretch of a line it covers.
pub trait MaximumVelocityShape2D {
    /// A planar velocity.
    type Velocity: Copy;

    /// A position along a line.
    type Scalar: Copy;

    /// A line given by a point and a direction.
    type Ray;

    /// The velocity of the region that stands for `velocity`.
    spec fn spec_constrain(&self, velocity: Self::Velocity) -> Self::Velocity;

    /// The two parameters between which `line` runs inside the region.
    spec fn spec_get_bounds_on_line(&self, line: &Self::Ray) -> Option<(Self::Scalar, Self::Scalar)>;

    /// Constrains a velocity to the region.
    fn constrain(&self, velocity: Self::Velocity) -> (constrained: Self::Velocity)
        ensures
            constrained == self.spec_constrain(velocity),
    ;

    /// Returns the parameters at which `line` enters and leaves the region,
    /// or `None` where it misses the region.
    fn get_bounds_on_line(&self, line: &Self::Ray) -> (bounds: Option<(Self::Scalar, Self::Scalar)>)
        ensures
            bounds == self.spec_get_bounds_on_line(line),
    ;
}

/// Every planar shape that can be intersected by a line bounds velocities:
/// a single point of contact counts as a stretch of no length.
impl<T> MaximumVelocityShape2D for T where T: Vec2Operations + Ray2DIntersection {
    type Velocity = <T as Vec2Operations>::Point;

    type Scalar = <T as Ray2DIntersection>::Parameter;

    type Ray = <T as Ray2DIntersection>::Ray;

    open spec fn spec_constrain(&self, velocity: Self::Velocity) -> Self::Velocity {
        Vec2Operations::spec_constrain(self, velocity)
    }

    open spec fn spec_get_bounds_on_line(&self, line: &Self::Ray) -> Option<
        (Self::Scalar, Self::Scalar),
    > {
        match self.spec_intersect(line) {
            Ray2DIntersectionResult::Empty => None,
            Ray2DIntersectionResult::Point(t) => Some((t, t)),
            Ray2DIntersectionResult::LineSegment(segment) => Some(
                (segment.spec_t_min(), segment.spec_t_max()),
            ),
        }
    }

    fn constrain(&self, velocity: Self::Velocity) -> (constrained: Self::Velocity) {
        Vec2Operations::constrain(self, velocity)
    }

    fn get_bounds_on_line(&self, line: &Self::Ray) -> (bounds: Option<(Self::Scalar, Self::Scalar)>) {
        match self.intersect(line) {
            Ray2DIntersectionResult::Empty => None,
            Ray2DIntersectionResult::Point(t) => Some((t, t)),
            Ray2DIntersectionResult::LineSegment(segment) => Some((segment.t_min(), segment.t_max())),
        }
    }
}

/// What one half-plane leaves of a segment of `line`.
///
/// A half-plane that contains both ends leaves the segment as it is.
/// Otherwise the segment is cut where `line` crosses the half-plane's
/// boundary: the start moves there if the half-plane excludes the start,
/// the end if it excludes the end. Nothing is left where the lines do not
/// cross in one point, or where the crossing lies on the wrong side of the
/// bound that it is to replace.
pub open spec fn clipped_by<H: HalfPlaneOperations>(
    segment: H::Segment,
    line: H::Ray,
    half_plane: H,
) -> Option<H::Segment> {
    let min_inside = half_plane.spec_contains(segment.spec_start());
    let max_inside = half_plane.spec_contains(segment.spec_end());
    if min_inside && max_inside {
        Some(segment)
    } else {
        match line.spec_intersect(&half_plane.spec_boundary()) {
            Ray2DIntersectionResult::Point(t) => {
                let raised = if min_inside {
                    Some(segment)
                } else {
                    clipped_min(segment, t)
                };
                match raised {
                    Some(s) => if max_inside {
                        Some(s)
                    } else {
                        clipped_max(s, t)
                    },
                    None => None,
                }
            },
            _ => None,
        }
    }
}

/// What the first `n` half-planes, taken in order, leave of a segment of
/// `line`.
pub open spec fn clipped_by_first<H: HalfPlaneOperations>(
    segment: H::Segment,
    line: H::Ray,
    half_planes: Seq<H>,
    n: nat,
) -> Option<H::Segment>
    decreases n,
{
    if n == 0 {
        Some(segment)
    } else {
        match clipped_by_first(segment, line, half_planes, (n - 1) as nat) {
            Some(s) => clipped_by(s, line, half_planes[n - 1]),
            None => None,
        }
    }
}

/// The velocity on the boundary of half-plane `i` that is nearest to
/// `velocity` among those inside `shape` that the half-planes before `i`
/// allow, if there is one.
pub open spec fn nearest_on_boundary_2d<B, H>(
    shape: B,
    half_planes: Seq<H>,
    i: int,
    velocity: H::Point,
) -> Option<H::Point> where
    H: HalfPlaneOperations,
    B: MaximumVelocityShape2D<Velocity = H::Point, Scalar = H::Scalar, Ray = H::Ray>,
 {
    let line = half_planes[i].spec_boundary();
    match shape.spec_get_bounds_on_line(&line) {
        Some((min_bound, max_bound)) => {
            let whole = H::Segment::spec_new(&line, min_bound, max_bound);
            match clipped_by_first(whole, line, half_planes, i as nat) {
                Some(left) => match settled(left) {
                    Some(settled) => Some(settled.spec_constrain(velocity)),
                    None => None,
                },
                None => None,
            }
        },
        None => None,
    }
}

/// The state of the optimization after the first `n` half-planes, started
/// from the velocity `start`.
pub open spec fn optimum_2d_after<B, H>(
    shape: B,
    half_planes: Seq<H>,
    start: H::Point,
    n: nat,
) -> OptimizationResult2D<H::Point> where
    H: HalfPlaneOperations,
    B: MaximumVelocityShape2D<Velocity = H::Point, Scalar = H::Scalar, Ray = H::Ray>,

    decreases n,
{
    if n == 0 {
        OptimizationResult2D::Feasible { optimal_velocity: start }
    } else {
        match optimum_2d_after(shape, half_planes, start, (n - 1) as nat) {
            OptimizationResult2D::Feasible { optimal_velocity } => {
                if half_planes[n - 1].spec_contains(optimal_velocity) {
                    OptimizationResult2D::Feasible { optimal_velocity }
                } else {
                    match nearest_on_boundary_2d(shape, half_planes, n - 1, optimal_velocity) {
                        Some(moved) => OptimizationResult2D::Feasible { optimal_velocity: moved },
                        None => OptimizationResult2D::Infeasible {
                            last_optimal_velocity: optimal_velocity,
                        },
                    }
                }
            },
            infeasible => infeasible,
        }
    }
}

/// The outcome of the planar optimization: the state after all the
/// half-planes, started from the preferred velocity constrained to `shape`.
pub open spec fn optimum_2d<B, H>(
    preferred_velocity: H::Point,
    shape: B,
    half_planes: Seq<H>,
) -> OptimizationResult2D<H::Point> where
    H: HalfPlaneOperations,
    B: MaximumVelocityShape2D<Velocity = H::Point, Scalar = H::Scalar, Ray = H::Ray>,
 {
    optimum_2d_after(shape, half_planes, shape.spec_constrain(preferred_velocity), half_planes.len())
}

/// Narrows `segment`, a stretch of `line`, to the part that `half_plane`
/// allows. Returns `None` where it allows none of it.
pub fn clip_segment<H: HalfPlaneOperations>(
    segment: H::Segment,
    line: &H::Ray,
    half_plane: &H,
) -> (clipped: Option<H::Segment>)
    ensures
        clipped == clipped_by(segment, *line, *half_plane),
{
    let min_inside = half_plane.contains(segment.start());
    let max_inside = half_plane.contains(segment.end());
    if min_inside && max_inside {
        return Some(segment);
    }
    let other_line = half_plane.boundary();
    match line.intersect(&other_line) {
        Ray2DIntersectionResult::Point(t) => {
            let raised = if min_inside {
                Some(segment)
            } else {
                clip_min(&segment, t)
            };
            match raised {
                Some(s) => if max_inside {
                    Some(s)
                } else {
                    clip_max(&s, t)
                },
                None => None,
            }
        },
        _ => None,
    }
}

/// Finds the velocity nearest to `preferred_velocity` inside
/// `maximum_velocity` and all of `half_planes`, taking the half-planes in
/// the order given.
///
/// The result is exactly `optimum_2d`: `Feasible` with the velocity found,
/// or `Infeasible`, as soon as one half-plane cannot be met, with the
/// velocity reached until then.
pub fn incremental_optimization_2d<B, H>(
    preferred_velocity: H::Point,
    maximum_velocity: &B,
    half_planes: &[H],
) -> (result: OptimizationResult2D<H::Point>) where
    H: HalfPlaneOperations,
    B: MaximumVelocityShape2D<Velocity = H::Point, Scalar = H::Scalar, Ray = H::Ray>,

    ensures
        result == optimum_2d(preferred_velocity, *maximum_velocity, half_planes@),
{
    let ghost start = maximum_velocity.spec_constrain(preferred_velocity);
    let mut optimal_velocity = maximum_velocity.constrain(preferred_velocity);
    let mut i: usize = 0;
    while i < half_planes.len()
        invariant
            i <= half_planes.len(),
            optimum_2d_after(*maximum_velocity, half_planes@, start, i as nat)
                == (OptimizationResult2D::Feasible { optimal_velocity }),
            start == maximum_velocity.spec_constrain(preferred_velocity),
        ensures
            i == half_planes.len(),
        decreases half_planes.len() - i,
    {
        let half_plane = &half_planes[i];
        if !half_plane.contains(optimal_velocity) {
            // The new velocity lies on the boundary of this half-plane, within
            // the stretch of it that the bounding shape covers.
            let line = half_plane.boundary();
            let moved = match maximum_velocity.get_bounds_on_line(&line) {
                Some((min_bound, max_bound)) => {
                    let whole = H::Segment::new(&line, min_bound, max_bound);
                    let mut left = Some(whole);
                    let mut j: usize = 0;
                    while j < i
                        invariant
                            j <= i,
                            i < half_planes.len(),
                            left == clipped_by_first(whole, line, half_planes@, j as nat),
                        decreases i - j,
                    {
                        left = match left {
                            Some(segment) => clip_segment(segment, &line, &half_planes[j]),
                            None => None,
                        };
                        j += 1;
                    }
                    match left {
                        Some(segment) => match settle(&segment) {
                            Some(settled) => Some(settled.constrain(optimal_velocity)),
                            None => None,
                        },
                        None => None,
                    }
                },
                None => None,
            };
            assert(moved == nearest_on_boundary_2d(
                *maximum_velocity,
                half_planes@,
                i as int,
                optimal_velocity,
            ));
            match moved {
                Some(velocity) => {
                    optimal_velocity = velocity;
                },
                None => {
                    proof {
                        lemma_infeasible_stays_2d(
                            *maximum_velocity,
                            half_planes@,
                            start,
                            (i + 1) as nat,
                            half_planes.len() as nat,
                        );
                    }
                    return OptimizationResult2D::Infeasible {
                        last_optimal_velocity: optimal_velocity,
                    };
                },
            }
        }
        i += 1;
    }
    OptimizationResult2D::Feasible { optimal_velocity }
}

/// Once the optimization is infeasible it stays so, with the same velocity.
pub proof fn lemma_infeasible_stays_2d<B, H>(
    shape: B,
    half_planes: Seq<H>,
    start: H::Point,
    n: nat,
    m: nat,
) where
    H: HalfPlaneOperations,
    B: MaximumVelocityShape2D<Velocity = H::Point, Scalar = H::Scalar, Ray = H::Ray>,

    requires
        n <= m,
        optimum_2d_after(shape, half_planes, start, n) is Infeasible,
    ensures
        optimum_2d_after(shape, half_planes, start, m) == optimum_2d_after(
            shape,
            half_planes,
            start,
            n,
        ),
    decreases m,
{
    if n < m {
        lemma_infeasible_stays_2d(shape, half_planes, start, n, (m - 1) as nat);
    }
}

/// Whether `velocity` satisfies the first `n` of `half_planes`.
pub open spec fn satisfies_first_2d<H: HalfPlaneOperations>(
    half_planes: Seq<H>,
    n: int,
    velocity: H::Point,
) -> bool {
    forall|j: int|
        0 <= j < n && j < half_planes.len() ==> (#[trigger] half_planes[j]).spec_contains(velocity)
}

/// Whether `velocity` satisfies every one of `half_planes`: whether it lies
/// in the region that they leave feasible.
pub open spec fn satisfies_all_2d<H: HalfPlaneOperations>(
    half_planes: Seq<H>,
    velocity: H::Point,
) -> bool {
    satisfies_first_2d(half_planes, half_planes.len() as int, velocity)
}

/// Whether the geometry keeps the promise that the method rests on: a
/// velocity that satisfies the half-planes before `i` but not half-plane
/// `i`, when it is moved onto the boundary of `i`, satisfies half-plane `i`
/// and still those before it.
pub open spec fn moves_are_sound_2d<B, H>(shape: B, half_planes: Seq<H>) -> bool where
    H: HalfPlaneOperations,
    B: MaximumVelocityShape2D<Velocity = H::Point, Scalar = H::Scalar, Ray = H::Ray>,
 {
    forall|i: int, velocity: H::Point|
        0 <= i < half_planes.len() && satisfies_first_2d(half_planes, i, velocity)
            && !half_planes[i].spec_contains(velocity) ==> match #[trigger] nearest_on_boundary_2d(
            shape,
            half_planes,
            i,
            velocity,
        ) {
            Some(moved) => satisfies_first_2d(half_planes, i + 1, moved),
            None => true,
        }
}

/// A further half-plane can only shrink the feasible region or leave it as
/// it is: what satisfies the longer list satisfies the shorter one.
pub proof fn lemma_feasible_region_shrinks_2d<H: HalfPlaneOperations>(
    half_planes: Seq<H>,
    added: H,
    velocity: H::Point,
)
    requires
        satisfies_all_2d(half_planes.push(added), velocity),
    ensures
        satisfies_all_2d(half_planes, velocity),
        added.spec_contains(velocity),
{
    let longer = half_planes.push(added);
    assert(longer[half_planes.len() as int] == added);
    assert forall|j: int| 0 <= j < half_planes.len() implies (
    #[trigger] half_planes[j]).spec_contains(
        velocity,
    ) by {
        assert(longer[j] == half_planes[j]);
    }
}

/// Half-planes that the velocity satisfies from the start do not move it:
/// where the preferred velocity, constrained to the bounding shape,
/// satisfies every half-plane, it is the optimum.
pub proof fn lemma_unconstrained_optimum_2d<B, H>(
    preferred_velocity: H::Point,
    shape: B,
    half_planes: Seq<H>,
) where
    H: HalfPlaneOperations,
    B: MaximumVelocityShape2D<Velocity = H::Point, Scalar = H::Scalar, Ray = H::Ray>,

    requires
        satisfies_all_2d(half_planes, shape.spec_constrain(preferred_velocity)),
    ensures
        optimum_2d(preferred_velocity, shape, half_planes) == (OptimizationResult2D::Feasible {
            optimal_velocity: shape.spec_constrain(preferred_velocity),
        }),
{
    lemma_unconstrained_prefix_2d(
        shape,
        half_planes,
        shape.spec_constrain(preferred_velocity),
        half_planes.len(),
    );
}

/// The same, for the state after the first `n` constraints.
proof fn lemma_unconstrained_prefix_2d<B, H>(
    shape: B,
    half_planes: Seq<H>,
    start: H::Point,
    n: nat,
) where
    H: HalfPlaneOperations,
    B: MaximumVelocityShape2D<Velocity = H::Point, Scalar = H::Scalar, Ray = H::Ray>,

    requires
        n <= half_planes.len(),
        satisfies_all_2d(half_planes, start),
    ensures
        optimum_2d_after(shape, half_planes, start, n) == (OptimizationResult2D::Feasible {
            optimal_velocity: start,
        }),
    decreases n,
{
    if n > 0 {
        lemma_unconstrained_prefix_2d(shape, half_planes, start, (n - 1) as nat);
        assert(half_planes[n - 1].spec_contains(start));
    }
}

/// A feasible outcome is feasible: where every move onto a boundary is
/// sound, the velocity of a `Feasible` outcome satisfies every half-plane.
pub proof fn lemma_feasible_optimum_satisfies_all_2d<B, H>(
    preferred_velocity: H::Point,
    shape: B,
    half_planes: Seq<H>,
) where
    H: HalfPlaneOperations,
    B: MaximumVelocityShape2D<Velocity = H::Point, Scalar = H::Scalar, Ray = H::Ray>,

    requires
        moves_are_sound_2d(shape, half_planes),
    ensures
        optimum_2d(preferred_velocity, shape, half_planes) matches OptimizationResult2D::Feasible {
            optimal_velocity,
        } ==> satisfies_all_2d(half_planes, optimal_velocity),
{
    lemma_feasible_prefix_satisfies_2d(
        shape,
        half_planes,
        shape.spec_constrain(preferred_velocity),
        half_planes.len(),
    );
}

/// The same, for the state after the first `n` constraints: a feasible state satisfies
/// those `n`.
proof fn lemma_feasible_prefix_satisfies_2d<B, H>(
    shape: B,
    half_planes: Seq<H>,
    start: H::Point,
    n: nat,
) where
    H: HalfPlaneOperations,
    B: MaximumVelocityShape2D<Velocity = H::Point, Scalar = H::Scalar, Ray = H::Ray>,

    requires
        n <= half_planes.len(),
        moves_are_sound_2d(shape, half_planes),
    ensures
        optimum_2d_after(shape, half_planes, start, n) matches OptimizationResult2D::Feasible {
            optimal_velocity,
        } ==> satisfies_first_2d(half_planes, n as int, optimal_velocity),
    decreases n,
{
    if n > 0 {
        lemma_feasible_prefix_satisfies_2d(shape, half_planes, start, (n - 1) as nat);
        match optimum_2d_after(shape, half_planes, start, (n - 1) as nat) {
            OptimizationResult2D::Feasible { optimal_velocity } => {
                if !half_planes[n - 1].spec_contains(optimal_velocity) {
                    assert(nearest_on_boundary_2d(shape, half_planes, n - 1, optimal_velocity)
                        matches Some(moved) ==> satisfies_first_2d(half_planes, n as int, moved));
                }
            },
            OptimizationResult2D::Infeasible { .. } => {},
        }
    }
}

/// The optimization is incremental: the state after the first `n`
/// half-planes does not depend on those that follow.
pub proof fn lemma_later_half_planes_do_not_matter<B, H>(
    shape: B,
    half_planes: Seq<H>,
    longer: Seq<H>,
    start: H::Point,
    n: nat,
) where
    H: HalfPlaneOperations,
    B: MaximumVelocityShape2D<Velocity = H::Point, Scalar = H::Scalar, Ray = H::Ray>,

    requires
        n <= half_planes.len() <= longer.len(),
        forall|j: int| 0 <= j < half_planes.len() ==> half_planes[j] == longer[j],
    ensures
        optimum_2d_after(shape, longer, start, n) == optimum_2d_after(shape, half_planes, start, n),
    decreases n,
{
    if n > 0 {
        lemma_later_half_planes_do_not_matter(shape, half_planes, longer, start, (n - 1) as nat);
        let line = half_planes[n - 1].spec_boundary();
        match shape.spec_get_bounds_on_line(&line) {
            Some((min_bound, max_bound)) => {
                lemma_clipping_reads_a_prefix(
                    H::Segment::spec_new(&line, min_bound, max_bound),
                    line,
                    half_planes,
                    longer,
                    (n - 1) as nat,
                );
            },
            None => {},
        }
    }
}

/// What the first `n` half-planes leave of a segment does not depend on the half-planes
/// that follow.
proof fn lemma_clipping_reads_a_prefix<H: HalfPlaneOperations>(
    segment: H::Segment,
    line: H::Ray,
    half_planes: Seq<H>,
    longer: Seq<H>,
    n: nat,
)
    requires
        n <= half_planes.len() <= longer.len(),
        forall|j: int| 0 <= j < half_planes.len() ==> half_planes[j] == longer[j],
    ensures
        clipped_by_first(segment, line, longer, n) == clipped_by_first(
            segment,
            line,
            half_planes,
            n,
        ),
    decreases n,
{
    if n > 0 {
        lemma_clipping_reads_a_prefix(segment, line, half_planes, longer, (n - 1) as nat);
    }
}

/// A further half-plane never makes an infeasible problem feasible, and
/// leaves the optimum alone where the optimum satisfies it.
pub proof fn lemma_added_half_plane<B, H>(
    preferred_velocity: H::Point,
    shape: B,
    half_planes: Seq<H>,
    added: H,
) where
    H: HalfPlaneOperations,
    B: MaximumVelocityShape2D<Velocity = H::Point, Scalar = H::Scalar, Ray = H::Ray>,

    ensures
        match optimum_2d(preferred_velocity, shape, half_planes) {
            OptimizationResult2D::Feasible { optimal_velocity } => added.spec_contains(
                optimal_velocity,
            ) ==> optimum_2d(preferred_velocity, shape, half_planes.push(added)) == optimum_2d(
                preferred_velocity,
                shape,
                half_planes,
            ),
            infeasible => optimum_2d(preferred_velocity, shape, half_planes.push(added))
                == infeasible,
        },
{
    let longer = half_planes.push(added);
    lemma_later_half_planes_do_not_matter(
        shape,
        half_planes,
        longer,
        shape.spec_constrain(preferred_velocity),
        half_planes.len(),
    );
    assert(longer[half_planes.len() as int] == added);
}

/// Whether every point of `segment` satisfies `half_plane`.
pub open spec fn segment_is_inside<H: HalfPlaneOperations>(
    segment: H::Segment,
    half_plane: H,
) -> bool {
    forall|velocity: H::Point| half_plane.spec_contains(#[trigger] segment.spec_constrain(velocity))
}

/// Whether every point of `segment` lies in `shape`: whether `shape` leaves
/// it where it is.
pub open spec fn segment_is_within<B, H>(segment: H::Segment, shape: B) -> bool where
    H: HalfPlaneOperations,
    B: MaximumVelocityShape2D<Velocity = H::Point, Scalar = H::Scalar, Ray = H::Ray>,
 {
    forall|velocity: H::Point|
        shape.spec_constrain(#[trigger] segment.spec_constrain(velocity))
            == segment.spec_constrain(velocity)
}

/// Whether every point of `part` is a point of `whole`.
pub open spec fn segment_is_part_of<H: HalfPlaneOperations>(
    part: H::Segment,
    whole: H::Segment,
) -> bool {
    forall|velocity: H::Point|
        #![trigger part.spec_constrain(velocity)]
        exists|other: H::Point| #[trigger]
            whole.spec_constrain(other) == part.spec_constrain(velocity)
}

/// What the optimization has in hand when it moves onto the boundary of
/// half-plane `i`, after the first `n` half-planes have cut it: the stretch
/// of the boundary that `shape` covers, narrowed by those half-planes.
pub open spec fn left_on_boundary<B, H>(
    shape: B,
    half_planes: Seq<H>,
    i: int,
    n: nat,
) -> Option<H::Segment> where
    H: HalfPlaneOperations,
    B: MaximumVelocityShape2D<Velocity = H::Point, Scalar = H::Scalar, Ray = H::Ray>,
 {
    let line = half_planes[i].spec_boundary();
    match shape.spec_get_bounds_on_line(&line) {
        Some((min_bound, max_bound)) => clipped_by_first(
            H::Segment::spec_new(&line, min_bound, max_bound),
            line,
            half_planes,
            n,
        ),
        None => None,
    }
}

/// Whether the stretch of a half-plane's boundary that `shape` covers lies
/// inside that half-plane and in `shape`.
pub open spec fn stretches_are_exact<B, H>(shape: B, half_planes: Seq<H>) -> bool where
    H: HalfPlaneOperations,
    B: MaximumVelocityShape2D<Velocity = H::Point, Scalar = H::Scalar, Ray = H::Ray>,
 {
    forall|i: int|
        0 <= i < half_planes.len() ==> match #[trigger] left_on_boundary(
            shape,
            half_planes,
            i,
            0,
        ) {
            Some(whole) => segment_is_inside(whole, half_planes[i]) && segment_is_within::<B, H>(
                whole,
                shape,
            ),
            None => true,
        }
}

/// Whether every cut that the optimization makes is exact: what half-plane
/// `n` leaves of the segment in hand on the boundary of a later half-plane
/// is a part of that segment and lies inside half-plane `n`.
pub open spec fn clips_are_exact<B, H>(shape: B, half_planes: Seq<H>) -> bool where
    H: HalfPlaneOperations,
    B: MaximumVelocityShape2D<Velocity = H::Point, Scalar = H::Scalar, Ray = H::Ray>,
 {
    forall|i: int, n: nat, next: nat|
        #![trigger
            left_on_boundary(shape, half_planes, i, n),
            left_on_boundary(shape, half_planes, i, next),
        ]
        n < i < half_planes.len() && next == n + 1 ==> match (
            left_on_boundary(shape, half_planes, i, n),
            left_on_boundary(shape, half_planes, i, next),
        ) {
            (Some(before), Some(left)) => segment_is_part_of::<H>(left, before)
                && segment_is_inside(left, half_planes[n as int]),
            _ => true,
        }
}

/// Whether merging the bounds of the segment that is left on a boundary
/// leaves a part of that segment.
pub open spec fn settling_is_exact<B, H>(shape: B, half_planes: Seq<H>) -> bool where
    H: HalfPlaneOperations,
    B: MaximumVelocityShape2D<Velocity = H::Point, Scalar = H::Scalar, Ray = H::Ray>,
 {
    forall|i: int|
        0 <= i < half_planes.len() ==> match #[trigger] left_on_boundary(
            shape,
            half_planes,
            i,
            i as nat,
        ) {
            Some(left) => match settled(left) {
                Some(settled) => segment_is_part_of::<H>(settled, left),
                None => true,
            },
            None => true,
        }
}

/// Whether the bounding shape, the half-planes and the segments that the
/// optimization builds from them behave as those of exact geometry do.
///
/// The conditions speak of no segment but those that the optimization has
/// in hand: the stretch of a boundary inside the shape, and what the
/// earlier half-planes, one after the other, leave of it.
pub open spec fn geometry_is_exact_2d<B, H>(shape: B, half_planes: Seq<H>) -> bool where
    H: HalfPlaneOperations,
    B: MaximumVelocityShape2D<Velocity = H::Point, Scalar = H::Scalar, Ray = H::Ray>,
 {
    &&& stretches_are_exact(shape, half_planes)
    &&& clips_are_exact(shape, half_planes)
    &&& settling_is_exact(shape, half_planes)
}

/// Whether every move onto a boundary ends in the bounding shape.
pub open spec fn moves_stay_in_bounds_2d<B, H>(shape: B, half_planes: Seq<H>) -> bool where
    H: HalfPlaneOperations,
    B: MaximumVelocityShape2D<Velocity = H::Point, Scalar = H::Scalar, Ray = H::Ray>,
 {
    forall|i: int, velocity: H::Point|
        0 <= i < half_planes.len() ==> match #[trigger] nearest_on_boundary_2d(
            shape,
            half_planes,
            i,
            velocity,
        ) {
            Some(moved) => shape.spec_constrain(moved) == moved,
            None => true,
        }
}

/// Whether constraining a velocity to `shape` a second time changes
/// nothing, for every velocity.
pub open spec fn bounds_are_idempotent_2d<B: MaximumVelocityShape2D>(shape: B) -> bool {
    forall|velocity: B::Velocity| #[trigger]
        shape.spec_constrain(shape.spec_constrain(velocity)) == shape.spec_constrain(velocity)
}

/// The velocity that an outcome carries, feasible or not.
pub open spec fn velocity_of_2d<V>(outcome: OptimizationResult2D<V>) -> V {
    match outcome {
        OptimizationResult2D::Feasible { optimal_velocity } => optimal_velocity,
        OptimizationResult2D::Infeasible { last_optimal_velocity } => last_optimal_velocity,
    }
}

/// What holds of the points of a segment holds of the points of a part of
/// it.
proof fn lemma_part_inherits<B, H>(part: H::Segment, whole: H::Segment, shape: B, half_plane: H) where
    H: HalfPlaneOperations,
    B: MaximumVelocityShape2D<Velocity = H::Point, Scalar = H::Scalar, Ray = H::Ray>,
    requires
        segment_is_part_of::<H>(part, whole),
    ensures
        segment_is_inside(whole, half_plane) ==> segment_is_inside(part, half_plane),
        segment_is_within::<B, H>(whole, shape) ==> segment_is_within::<B, H>(part, shape),
{
    assert forall|velocity: H::Point|
        segment_is_inside(whole, half_plane) implies half_plane.spec_contains(
        #[trigger] part.spec_constrain(velocity),
    ) by {
        let other = choose|other: H::Point| #[trigger]
            whole.spec_constrain(other) == part.spec_constrain(velocity);
        assert(half_plane.spec_contains(whole.spec_constrain(other)));
    }
    assert forall|velocity: H::Point|
        segment_is_within::<B, H>(whole, shape) implies shape.spec_constrain(
        #[trigger] part.spec_constrain(velocity),
    ) == part.spec_constrain(velocity) by {
        let other = choose|other: H::Point| #[trigger]
            whole.spec_constrain(other) == part.spec_constrain(velocity);
        assert(shape.spec_constrain(whole.spec_constrain(other)) == whole.spec_constrain(other));
    }
}

/// In exact geometry, what the first `n` half-planes leave on the boundary
/// of half-plane `i` lies inside half-plane `i`, inside each of those `n`,
/// and in the bounding shape.
proof fn lemma_left_on_boundary_is_exact<B, H>(shape: B, half_planes: Seq<H>, i: int, n: nat) where
    H: HalfPlaneOperations,
    B: MaximumVelocityShape2D<Velocity = H::Point, Scalar = H::Scalar, Ray = H::Ray>,
    requires
        geometry_is_exact_2d(shape, half_planes),
        n <= i < half_planes.len(),
    ensures
        left_on_boundary(shape, half_planes, i, n) matches Some(left) ==> {
            &&& segment_is_inside(left, half_planes[i])
            &&& segment_is_within::<B, H>(left, shape)
            &&& forall|j: int| 0 <= j < n ==> segment_is_inside(left, #[trigger] half_planes[j])
        },
    decreases n,
{
    if n > 0 {
        lemma_left_on_boundary_is_exact(shape, half_planes, i, (n - 1) as nat);
        let before = left_on_boundary(shape, half_planes, i, (n - 1) as nat);
        let now = left_on_boundary(shape, half_planes, i, n);
        match (before, now) {
            (Some(before), Some(left)) => {
                lemma_part_inherits::<B, H>(left, before, shape, half_planes[i]);
                assert forall|j: int| 0 <= j < n implies segment_is_inside(
                    left,
                    #[trigger] half_planes[j],
                ) by {
                    if j < n - 1 {
                        lemma_part_inherits::<B, H>(left, before, shape, half_planes[j]);
                    }
                }
            },
            _ => {},
        }
    }
}

/// In exact geometry every move onto a boundary is sound and ends in the
/// bounding shape.
pub proof fn lemma_geometry_is_sound_2d<B, H>(shape: B, half_planes: Seq<H>) where
    H: HalfPlaneOperations,
    B: MaximumVelocityShape2D<Velocity = H::Point, Scalar = H::Scalar, Ray = H::Ray>,
    requires
        geometry_is_exact_2d(shape, half_planes),
    ensures
        moves_are_sound_2d(shape, half_planes),
        moves_stay_in_bounds_2d(shape, half_planes),
{
    assert forall|i: int, velocity: H::Point|
        0 <= i < half_planes.len() implies match #[trigger] nearest_on_boundary_2d(
        shape,
        half_planes,
        i,
        velocity,
    ) {
        Some(moved) => satisfies_first_2d(half_planes, i + 1, moved) && shape.spec_constrain(moved)
            == moved,
        None => true,
    } by {
        lemma_left_on_boundary_is_exact(shape, half_planes, i, i as nat);
        match left_on_boundary(shape, half_planes, i, i as nat) {
            Some(left) => match settled(left) {
                Some(settled) => {
                    let moved = settled.spec_constrain(velocity);
                    assert(nearest_on_boundary_2d(shape, half_planes, i, velocity) == Some(moved));
                    lemma_part_inherits::<B, H>(settled, left, shape, half_planes[i]);
                    assert forall|j: int| 0 <= j < i + 1 implies (
                    #[trigger] half_planes[j]).spec_contains(moved) by {
                        lemma_part_inherits::<B, H>(settled, left, shape, half_planes[j]);
                        assert(segment_is_inside(settled, half_planes[j]));
                    }
                },
                None => {},
            },
            None => {},
        }
    }
}

/// Feasibility: in exact geometry the velocity of a `Feasible` outcome
/// satisfies every half-plane of the list.
pub proof fn lemma_feasible_velocity_satisfies_every_half_plane<B, H>(
    preferred_velocity: H::Point,
    shape: B,
    half_planes: Seq<H>,
) where
    H: HalfPlaneOperations,
    B: MaximumVelocityShape2D<Velocity = H::Point, Scalar = H::Scalar, Ray = H::Ray>,
    requires
        geometry_is_exact_2d(shape, half_planes),
    ensures
        optimum_2d(preferred_velocity, shape, half_planes) matches OptimizationResult2D::Feasible {
            optimal_velocity,
        } ==> satisfies_all_2d(half_planes, optimal_velocity),
{
    lemma_geometry_is_sound_2d(shape, half_planes);
    lemma_feasible_optimum_satisfies_all_2d(preferred_velocity, shape, half_planes);
}

/// The velocity found lies in the bounding shape: where every move ends in
/// the shape and constraining the preferred velocity a second time changes
/// nothing, the shape leaves the velocity of the outcome, feasible or not,
/// where it is.
pub proof fn lemma_optimum_is_in_bounds_2d<B, H>(
    preferred_velocity: H::Point,
    shape: B,
    half_planes: Seq<H>,
) where
    H: HalfPlaneOperations,
    B: MaximumVelocityShape2D<Velocity = H::Point, Scalar = H::Scalar, Ray = H::Ray>,
    requires
        moves_stay_in_bounds_2d(shape, half_planes),
        shape.spec_constrain(shape.spec_constrain(preferred_velocity)) == shape.spec_constrain(
            preferred_velocity,
        ),
    ensures
        shape.spec_constrain(velocity_of_2d(optimum_2d(preferred_velocity, shape, half_planes)))
            == velocity_of_2d(optimum_2d(preferred_velocity, shape, half_planes)),
{
    lemma_prefix_is_in_bounds_2d(
        shape,
        half_planes,
        shape.spec_constrain(preferred_velocity),
        half_planes.len(),
    );
}

/// The same, for the state after the first `n` constraints.
proof fn lemma_prefix_is_in_bounds_2d<B, H>(
    shape: B,
    half_planes: Seq<H>,
    start: H::Point,
    n: nat,
) where
    H: HalfPlaneOperations,
    B: MaximumVelocityShape2D<Velocity = H::Point, Scalar = H::Scalar, Ray = H::Ray>,
    requires
        n <= half_planes.len(),
        moves_stay_in_bounds_2d(shape, half_planes),
        shape.spec_constrain(start) == start,
    ensures
        shape.spec_constrain(velocity_of_2d(optimum_2d_after(shape, half_planes, start, n)))
            == velocity_of_2d(optimum_2d_after(shape, half_planes, start, n)),
    decreases n,
{
    if n > 0 {
        lemma_prefix_is_in_bounds_2d(shape, half_planes, start, (n - 1) as nat);
        match optimum_2d_after(shape, half_planes, start, (n - 1) as nat) {
            OptimizationResult2D::Feasible { optimal_velocity } => {
                if !half_planes[n - 1].spec_contains(optimal_velocity) {
                    assert(nearest_on_boundary_2d(shape, half_planes, n - 1, optimal_velocity)
                        matches Some(moved) ==> shape.spec_constrain(moved) == moved);
                }
            },
            OptimizationResult2D::Infeasible { .. } => {},
        }
    }
}

/// In exact geometry the velocity found lies in the bounding shape: the
/// shape leaves the velocity of the outcome, feasible or not, where it is.
pub proof fn lemma_velocity_found_is_in_bounds_2d<B, H>(
    preferred_velocity: H::Point,
    shape: B,
    half_planes: Seq<H>,
) where
    H: HalfPlaneOperations,
    B: MaximumVelocityShape2D<Velocity = H::Point, Scalar = H::Scalar, Ray = H::Ray>,
    requires
        geometry_is_exact_2d(shape, half_planes),
        shape.spec_constrain(shape.spec_constrain(preferred_velocity)) == shape.spec_constrain(
            preferred_velocity,
        ),
    ensures
        shape.spec_constrain(velocity_of_2d(optimum_2d(preferred_velocity, shape, half_planes)))
            == velocity_of_2d(optimum_2d(preferred_velocity, shape, half_planes)),
{
    lemma_geometry_is_sound_2d(shape, half_planes);
    lemma_optimum_is_in_bounds_2d(preferred_velocity, shape, half_planes);
}

/// Where constraining the preferred velocity to the bounding shape a second
/// time changes nothing, the optimization may as well start from the
/// constrained velocity: the outcome is the same.
pub proof fn lemma_constrained_preference_is_as_good_2d<B, H>(
    preferred_velocity: H::Point,
    shape: B,
    half_planes: Seq<H>,
) where
    H: HalfPlaneOperations,
    B: MaximumVelocityShape2D<Velocity = H::Point, Scalar = H::Scalar, Ray = H::Ray>,

    requires
        shape.spec_constrain(shape.spec_constrain(preferred_velocity)) == shape.spec_constrain(
            preferred_velocity,
        ),
    ensures
        optimum_2d(shape.spec_constrain(preferred_velocity), shape, half_planes) == optimum_2d(
            preferred_velocity,
            shape,
            half_planes,
        ),
{
}

/// Whether half-plane `k` is where the optimization gave up with `velocity`:
/// the velocity satisfies every half-plane before `k` but not half-plane `k`, and
/// nothing of the boundary of `k` is left to move to.
pub open spec fn gave_up_at_2d<B, H>(
    shape: B,
    half_planes: Seq<H>,
    k: int,
    velocity: H::Point,
) -> bool where
    H: HalfPlaneOperations,
    B: MaximumVelocityShape2D<Velocity = H::Point, Scalar = H::Scalar, Ray = H::Ray>,
 {
    &&& 0 <= k < half_planes.len()
    &&& satisfies_first_2d(half_planes, k, velocity)
    &&& !half_planes[k].spec_contains(velocity)
    &&& nearest_on_boundary_2d(shape, half_planes, k, velocity) is None
}

/// An infeasible outcome hands back the best of what was reached: where
/// every move onto a boundary is sound, the velocity of an `Infeasible`
/// outcome satisfies every half-plane before the one that could not be met.
pub proof fn lemma_infeasible_velocity_satisfies_the_earlier_2d<B, H>(
    preferred_velocity: H::Point,
    shape: B,
    half_planes: Seq<H>,
) where
    H: HalfPlaneOperations,
    B: MaximumVelocityShape2D<Velocity = H::Point, Scalar = H::Scalar, Ray = H::Ray>,
    requires
        moves_are_sound_2d(shape, half_planes),
    ensures
        optimum_2d(preferred_velocity, shape, half_planes) matches OptimizationResult2D::Infeasible {
            last_optimal_velocity,
        } ==> exists|k: int| #[trigger] gave_up_at_2d(shape, half_planes, k, last_optimal_velocity),
{
    lemma_infeasible_prefix_gave_up_2d(
        shape,
        half_planes,
        shape.spec_constrain(preferred_velocity),
        half_planes.len(),
    );
}

/// The same, for the state after the first `n` constraints.
proof fn lemma_infeasible_prefix_gave_up_2d<B, H>(
    shape: B,
    half_planes: Seq<H>,
    start: H::Point,
    n: nat,
) where
    H: HalfPlaneOperations,
    B: MaximumVelocityShape2D<Velocity = H::Point, Scalar = H::Scalar, Ray = H::Ray>,
    requires
        n <= half_planes.len(),
        moves_are_sound_2d(shape, half_planes),
    ensures
        optimum_2d_after(shape, half_planes, start, n) is Infeasible ==> exists|k: int| #[trigger]
            gave_up_at_2d(
                shape,
                half_planes,
                k,
                optimum_2d_after(shape, half_planes, start, n)->last_optimal_velocity,
            ),
    decreases n,
{
    let now = optimum_2d_after(shape, half_planes, start, n);
    if n > 0 {
        lemma_infeasible_prefix_gave_up_2d(shape, half_planes, start, (n - 1) as nat);
        lemma_feasible_prefix_satisfies_2d(shape, half_planes, start, (n - 1) as nat);
        match optimum_2d_after(shape, half_planes, start, (n - 1) as nat) {
            OptimizationResult2D::Feasible { optimal_velocity } => {
                if now is Infeasible {
                    assert(now->last_optimal_velocity == optimal_velocity);
                    assert(gave_up_at_2d(shape, half_planes, n - 1, optimal_velocity));
                }
            },
            OptimizationResult2D::Infeasible { last_optimal_velocity } => {
                assert(now->last_optimal_velocity == last_optimal_velocity);
                let k = choose|k: int| #[trigger]
                    gave_up_at_2d(shape, half_planes, k, last_optimal_velocity);
                assert(gave_up_at_2d(shape, half_planes, k, last_optimal_velocity));
            },
        }
    }
}

/// The optimum is stable: where every move onto a boundary is sound and
/// ends in the bounding shape, and constraining the preferred velocity a
/// second time changes nothing, the optimization started from the velocity
/// of a `Feasible` outcome finds it again.
pub proof fn lemma_optimum_is_stable_2d<B, H>(
    preferred_velocity: H::Point,
    shape: B,
    half_planes: Seq<H>,
) where
    H: HalfPlaneOperations,
    B: MaximumVelocityShape2D<Velocity = H::Point, Scalar = H::Scalar, Ray = H::Ray>,
    requires
        moves_are_sound_2d(shape, half_planes),
        moves_stay_in_bounds_2d(shape, half_planes),
        shape.spec_constrain(shape.spec_constrain(preferred_velocity)) == shape.spec_constrain(
            preferred_velocity,
        ),
    ensures
        optimum_2d(preferred_velocity, shape, half_planes) matches OptimizationResult2D::Feasible {
            optimal_velocity,
        } ==> optimum_2d(optimal_velocity, shape, half_planes) == optimum_2d(
            preferred_velocity,
            shape,
            half_planes,
        ),
{
    lemma_feasible_optimum_satisfies_all_2d(preferred_velocity, shape, half_planes);
    lemma_optimum_is_in_bounds_2d(preferred_velocity, shape, half_planes);
    match optimum_2d(preferred_velocity, shape, half_planes) {
        OptimizationResult2D::Feasible { optimal_velocity } => {
            lemma_unconstrained_optimum_2d(optimal_velocity, shape, half_planes);
        },
        OptimizationResult2D::Infeasible { .. } => {},
    }
}

/// One more half-plane makes nothing feasible and frees no velocity: in
/// exact geometry, where the longer list has a feasible outcome, so has the
/// shorter one, and the velocity found for the longer list satisfies every
/// half-plane of the shorter list and the one that was added.
pub proof fn lemma_longer_list_is_no_easier_2d<B, H>(
    preferred_velocity: H::Point,
    shape: B,
    half_planes: Seq<H>,
    added: H,
) where
    H: HalfPlaneOperations,
    B: MaximumVelocityShape2D<Velocity = H::Point, Scalar = H::Scalar, Ray = H::Ray>,
    requires
        geometry_is_exact_2d(shape, half_planes.push(added)),
    ensures
        optimum_2d(preferred_velocity, shape, half_planes.push(added))
            matches OptimizationResult2D::Feasible {
            optimal_velocity,
        } ==> {
            &&& optimum_2d(preferred_velocity, shape, half_planes) is Feasible
            &&& satisfies_all_2d(half_planes, optimal_velocity)
            &&& added.spec_contains(optimal_velocity)
        },
{
    lemma_added_half_plane(preferred_velocity, shape, half_planes, added);
    lemma_feasible_velocity_satisfies_every_half_plane(
        preferred_velocity,
        shape,
        half_planes.push(added),
    );
    match optimum_2d(preferred_velocity, shape, half_planes.push(added)) {
        OptimizationResult2D::Feasible { optimal_velocity } => {
            lemma_feasible_region_shrinks_2d(half_planes, added, optimal_velocity);
        },
        OptimizationResult2D::Infeasible { .. } => {},
    }
}

/// A shape whose `constrain` is idempotent bounds velocities idempotently.
pub proof fn lemma_bounds_inherit_idempotence_2d<T>(shape: T) where
    T: Vec2Operations + Ray2DIntersection,
    requires
        constrain_is_idempotent_2d(shape),
    ensures
        bounds_are_idempotent_2d(shape),
{
    assert forall|velocity: <T as Vec2Operations>::Point| #[trigger]
        MaximumVelocityShape2D::spec_constrain(
            &shape,
            MaximumVelocityShape2D::spec_constrain(&shape, velocity),
        )
            == MaximumVelocityShape2D::spec_constrain(&shape, velocity) by {
        assert(Vec2Operations::spec_constrain(&shape, Vec2Operations::spec_constrain(&shape, velocity))
            == Vec2Operations::spec_constrain(&shape, velocity));
    }
}

} // verus!
