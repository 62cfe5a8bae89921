//! The outline of an acceleration velocity obstacle in the plane of the
//! relative position and velocity.
//!
//! The outline is traced on both sides of the obstacle by short segments,
//! one per time step, and closed at the far end by an arc or, where no arc
//! fits, by one more segment.

use vstd::prelude::*;
use crate::points::{constrain_is_idempotent_2d, Vec2Operations};

verus! {

/// One piece of the outline.
///
/// A piece answers every query as the segment or the arc that it holds
/// does.
#[derive(Debug)]
pub enum AVOBoundary<L, A> {
    /// A straight piece.
    LineSegment(L),
    /// The arc that closes the outline.
    Arc(A),
}

impl<L, A> Vec2Operations for AVOBoundary<L, A> where
    L: Vec2Operations,
    A: Vec2Operations<Point = L::Point, Scalar = L::Scalar>,
 {
    type Point = L::Point;

    type Scalar = L::Scalar;

    open spec fn spec_contains(&self, pt: Self::Point) -> bool {
        match self {
            AVOBoundary::LineSegment(line_segment) => line_segment.spec_contains(pt),
            AVOBoundary::Arc(arc) => arc.spec_contains(pt),
        }
    }

    open spec fn spec_constrain(&self, pt: Self::Point) -> Self::Point {
        match self {
            AVOBoundary::LineSegment(line_segment) => line_segment.spec_constrain(pt),
            AVOBoundary::Arc(arc) => arc.spec_constrain(pt),
        }
    }

    open spec fn spec_closest_point_and_normal(&self, pt: Self::Point) -> (
        Self::Point,
        Self::Point,
    ) {
        match self {
            AVOBoundary::LineSegment(line_segment) => line_segment.spec_closest_point_and_normal(
                pt,
            ),
            AVOBoundary::Arc(arc) => arc.spec_closest_point_and_normal(pt),
        }
    }

    open spec fn spec_signed_distance(&self, pt: Self::Point) -> Self::Scalar {
        match self {
            AVOBoundary::LineSegment(line_segment) => line_segment.spec_signed_distance(pt),
            AVOBoundary::Arc(arc) => arc.spec_signed_distance(pt),
        }
    }

    fn contains(&self, pt: Self::Point) -> (inside: bool) {
        match self {
            AVOBoundary::LineSegment(line_segment) => line_segment.contains(pt),
            AVOBoundary::Arc(arc) => arc.contains(pt),
        }
    }

    fn constrain(&self, pt: Self::Point) -> (constrained: Self::Point) {
        match self {
            AVOBoundary::LineSegment(line_segment) => line_segment.constrain(pt),
            AVOBoundary::Arc(arc) => arc.constrain(pt),
        }
    }

    fn closest_point_and_normal(&self, pt: Self::Point) -> (closest: (Self::Point, Self::Point)) {
        match self {
            AVOBoundary::LineSegment(line_segment) => line_segment.closest_point_and_normal(pt),
            AVOBoundary::Arc(arc) => arc.closest_point_and_normal(pt),
        }
    }

    fn signed_distance(&self, pt: Self::Point) -> (distance: Self::Scalar) {
        match self {
            AVOBoundary::LineSegment(line_segment) => line_segment.signed_distance(pt),
            AVOBoundary::Arc(arc) => arc.signed_distance(pt),
        }
    }
}

/// The segments of one side as pieces of the outline, in the same order.
pub open spec fn as_pieces<L, A>(side: Seq<L>) -> Seq<AVOBoundary<L, A>> {
    Seq::new(side.len(), |i: int| AVOBoundary::LineSegment(side[i]))
}

/// The outline in the order in which it is walked: the left side from the
/// near end to the far end, the piece that closes the far end if there is
/// one, and the right side from the far end back to the near end.
pub open spec fn outline<L, A>(
    left_boundary: Seq<L>,
    closing: Option<AVOBoundary<L, A>>,
    right_boundary: Seq<L>,
) -> Seq<AVOBoundary<L, A>> {
    as_pieces(left_boundary) + match closing {
        Some(piece) => seq![piece],
        None => Seq::empty(),
    } + as_pieces(right_boundary.reverse())
}

impl<L: Copy, A> AVOBoundary<L, A> {
    /// Joins the two sides and the piece that closes the far end into one
    /// outline. Both sides are given from the near end to the far end.
    pub fn join(left_boundary: &[L], closing: Option<Self>, right_boundary: &[L]) -> (boundary: Vec<
        Self,
    >)
        ensures
            boundary@ == outline(left_boundary@, closing, right_boundary@),
    {
        let mut boundary: Vec<Self> = Vec::new();
        let mut i: usize = 0;
        while i < left_boundary.len()
            invariant
                i <= left_boundary.len(),
                boundary@ == as_pieces::<L, A>(left_boundary@.subrange(0, i as int)),
            decreases left_boundary.len() - i,
        {
            boundary.push(AVOBoundary::LineSegment(left_boundary[i]));
            assert(boundary@ =~= as_pieces::<L, A>(left_boundary@.subrange(0, i + 1)));
            i += 1;
        }
        assert(left_boundary@.subrange(0, i as int) =~= left_boundary@);
        let ghost left = boundary@;
        if let Some(piece) = closing {
            boundary.push(piece);
        }
        let ghost closed = boundary@;
        let mut j: usize = right_boundary.len();
        while j > 0
            invariant
                j <= right_boundary.len(),
                boundary@ == closed + as_pieces::<L, A>(
                    right_boundary@.reverse().subrange(0, right_boundary.len() - j),
                ),
            decreases j,
        {
            j -= 1;
            boundary.push(AVOBoundary::LineSegment(right_boundary[j]));
            assert(boundary@ =~= closed + as_pieces::<L, A>(
                right_boundary@.reverse().subrange(0, right_boundary.len() - j),
            ));
        }
        assert(right_boundary@.reverse().subrange(0, right_boundary.len() as int)
            =~= right_boundary@.reverse());
        boundary
    }
}

/// Containment is idempotent for a piece of the outline where it is for
/// the segment or the arc that the piece holds.
pub proof fn lemma_piece_constrain_is_idempotent<L, A>(piece: AVOBoundary<L, A>) where
    L: Vec2Operations,
    A: Vec2Operations<Point = L::Point, Scalar = L::Scalar>,

    requires
        match piece {
            AVOBoundary::LineSegment(line_segment) => constrain_is_idempotent_2d(line_segment),
            AVOBoundary::Arc(arc) => constrain_is_idempotent_2d(arc),
        },
    ensures
        constrain_is_idempotent_2d(piece),
{
    assert forall|pt: L::Point| #[trigger]
        piece.spec_constrain(piece.spec_constrain(pt)) == piece.spec_constrain(pt) by {
        match piece {
            AVOBoundary::LineSegment(line_segment) => {
                assert(line_segment.spec_constrain(line_segment.spec_constrain(pt))
                    == line_segment.spec_constrain(pt));
            },
            AVOBoundary::Arc(arc) => {
                assert(arc.spec_constrain(arc.spec_constrain(pt)) == arc.spec_constrain(pt));
            },
        }
    }
}

} // verus!
