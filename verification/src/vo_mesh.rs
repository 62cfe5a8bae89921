//! The surface of a velocity obstacle that is known only by sampling.
//!
//! Directions are sampled on a grid of yaw and pitch steps. A direction
//! along which the obstacle can be hit yields a sample: the two ends of the
//! stretch of velocities along it that lead to a collision. All samples
//! together are the grid's points; joining those of neighbouring directions
//! by triangles gives a mesh that stands for the obstacle's surface.
//!
//! The grid closes on itself in yaw, where the last step meets the first
//! again. In pitch it ends at the two poles.

use vstd::prelude::*;

verus! {

/// The sample of `samples` for a grid cell, if the cell has one.
pub open spec fn sample_at<T>(samples: Map<(int, int), (T, T)>, yaw: int, pitch: int) -> Option<
    (T, T),
> {
    if samples.dom().contains((yaw, pitch)) {
        Some(samples[(yaw, pitch)])
    } else {
        None
    }
}

/// The yaw step after `yaw` on a grid of `yaw_samples` steps that closes on
/// itself.
pub open spec fn right_of(yaw: int, yaw_samples: int) -> int {
    (yaw + 1) % yaw_samples
}

/// The yaw step before `yaw` on a grid of `yaw_samples` steps that closes on
/// itself.
pub open spec fn left_of(yaw: int, yaw_samples: int) -> int {
    (yaw + yaw_samples - 1) % yaw_samples
}

/// The triangles that join a sample to its neighbours above, to the right
/// and diagonally above to the right, for each of the eight ways in which
/// those may be present.
pub open spec fn forward_facets<T>(
    start: T,
    end: T,
    top: Option<(T, T)>,
    right: Option<(T, T)>,
    top_right: Option<(T, T)>,
) -> Seq<(T, T, T)> {
    match (top, right, top_right) {
        (None, None, _) => Seq::empty(),
        (None, Some(r), None) => seq![(start, r.0, end), (r.0, r.1, end)],
        (None, Some(r), Some(tr)) => seq![
            (start, r.0, tr.0),
            (end, tr.1, r.1),
            (start, tr.0, end),
            (tr.0, tr.1, end),
        ],
        (Some(t), None, None) => seq![(start, end, t.0), (t.0, end, t.1)],
        (Some(t), None, Some(tr)) => seq![
            (start, tr.0, t.0),
            (end, t.1, tr.1),
            (start, end, tr.0),
            (tr.0, end, tr.1),
        ],
        (Some(t), Some(r), None) => seq![
            (start, r.0, t.0),
            (end, t.1, r.1),
            (t.0, r.0, r.1),
            (t.0, r.1, t.1),
        ],
        (Some(t), Some(r), Some(tr)) => seq![
            (start, r.0, t.0),
            (end, t.1, r.1),
            (t.0, r.0, tr.0),
            (t.1, tr.1, r.1),
        ],
    }
}

/// The triangles that close the surface on the left of a sample that has
/// no neighbour there: nothing joins it from that side, so the sample does
/// it itself.
pub open spec fn left_facets<T>(
    start: T,
    end: T,
    top: Option<(T, T)>,
    left: Option<(T, T)>,
    top_left: Option<(T, T)>,
) -> Seq<(T, T, T)> {
    match (left, top, top_left) {
        (None, Some(t), None) => seq![(start, t.0, end), (t.0, t.1, end)],
        (None, Some(t), Some(tl)) => seq![
            (start, t.0, tl.0),
            (end, tl.1, t.1),
            (start, tl.0, end),
            (tl.0, tl.1, end),
        ],
        _ => Seq::empty(),
    }
}

/// The triangles that close the surface below a sample that has no
/// neighbour below it nor diagonally below to the right.
pub open spec fn bottom_facets<T>(
    start: T,
    end: T,
    right: Option<(T, T)>,
    bottom: bool,
    bottom_right: bool,
) -> Seq<(T, T, T)> {
    match right {
        Some(r) if !bottom && !bottom_right => seq![(start, end, r.0), (r.0, end, r.1)],
        _ => Seq::empty(),
    }
}

/// The triangles that the cell at `yaw` and `pitch` adds to the mesh.
pub open spec fn cell_facets<T>(
    samples: Map<(int, int), (T, T)>,
    yaw_samples: int,
    yaw: int,
    pitch: int,
) -> Seq<(T, T, T)> {
    match sample_at(samples, yaw, pitch) {
        Some((start, end)) => {
            let right_yaw = right_of(yaw, yaw_samples);
            let left_yaw = left_of(yaw, yaw_samples);
            let top = sample_at(samples, yaw, pitch + 1);
            let right = sample_at(samples, right_yaw, pitch);
            forward_facets(start, end, top, right, sample_at(samples, right_yaw, pitch + 1))
                + left_facets(
                start,
                end,
                top,
                sample_at(samples, left_yaw, pitch),
                sample_at(samples, left_yaw, pitch + 1),
            ) + bottom_facets(
                start,
                end,
                right,
                sample_at(samples, yaw, pitch - 1) is Some,
                sample_at(samples, right_yaw, pitch - 1) is Some,
            )
        },
        None => Seq::empty(),
    }
}

/// The triangles of the first `count` cells of the column at `yaw`, from
/// the lowest pitch step up.
pub open spec fn column_facets<T>(
    samples: Map<(int, int), (T, T)>,
    yaw_samples: int,
    yaw: int,
    count: nat,
) -> Seq<(T, T, T)>
    decreases count,
{
    if count == 0 {
        Seq::empty()
    } else {
        column_facets(samples, yaw_samples, yaw, (count - 1) as nat) + cell_facets(
            samples,
            yaw_samples,
            yaw,
            count - 1,
        )
    }
}

/// The triangles of the first `count` columns, each of `pitch_samples + 1`
/// cells, from the lowest yaw step up.
pub open spec fn columns_facets<T>(
    samples: Map<(int, int), (T, T)>,
    yaw_samples: int,
    pitch_samples: int,
    count: nat,
) -> Seq<(T, T, T)>
    decreases count,
{
    if count == 0 {
        Seq::empty()
    } else {
        columns_facets(samples, yaw_samples, pitch_samples, (count - 1) as nat) + column_facets(
            samples,
            yaw_samples,
            count - 1,
            (pitch_samples + 1) as nat,
        )
    }
}

/// The mesh of a grid of samples: the triangles of all its cells, column
/// by column.
pub open spec fn mesh<T>(
    samples: Map<(int, int), (T, T)>,
    yaw_samples: int,
    pitch_samples: int,
) -> Seq<(T, T, T)> {
    columns_facets(samples, yaw_samples, pitch_samples, (yaw_samples + 1) as nat)
}

/// Appends to `triangles` the triangles that join a sample to its
/// neighbours above and to the right.
fn push_forward_facets<T: Copy>(
    triangles: &mut Vec<(T, T, T)>,
    start: T,
    end: T,
    top: Option<(T, T)>,
    right: Option<(T, T)>,
    top_right: Option<(T, T)>,
)
    ensures
        final(triangles)@ == old(triangles)@ + forward_facets(start, end, top, right, top_right),
{
    match (top, right, top_right) {
        (None, None, _) => {},
        (None, Some((right_start, right_end)), None) => {
            triangles.push((start, right_start, end));
            triangles.push((right_start, right_end, end));
        },
        (None, Some((right_start, right_end)), Some((top_right_start, top_right_end))) => {
            triangles.push((start, right_start, top_right_start));
            triangles.push((end, top_right_end, right_end));
            triangles.push((start, top_right_start, end));
            triangles.push((top_right_start, top_right_end, end));
        },
        (Some((top_start, top_end)), None, None) => {
            triangles.push((start, end, top_start));
            triangles.push((top_start, end, top_end));
        },
        (Some((top_start, top_end)), None, Some((top_right_start, top_right_end))) => {
            triangles.push((start, top_right_start, top_start));
            triangles.push((end, top_end, top_right_end));
            triangles.push((start, end, top_right_start));
            triangles.push((top_right_start, end, top_right_end));
        },
        (Some((top_start, top_end)), Some((right_start, right_end)), None) => {
            triangles.push((start, right_start, top_start));
            triangles.push((end, top_end, right_end));
            triangles.push((top_start, right_start, right_end));
            triangles.push((top_start, right_end, top_end));
        },
        (
            Some((top_start, top_end)),
            Some((right_start, right_end)),
            Some((top_right_start, top_right_end)),
        ) => {
            triangles.push((start, right_start, top_start));
            triangles.push((end, top_end, right_end));
            triangles.push((top_start, right_start, top_right_start));
            triangles.push((top_end, top_right_end, right_end));
        },
    }
    assert(triangles@ =~= old(triangles)@ + forward_facets(start, end, top, right, top_right));
}

/// Appends to `triangles` the triangles that close the surface on the left
/// of a sample without a neighbour there.
fn push_left_facets<T: Copy>(
    triangles: &mut Vec<(T, T, T)>,
    start: T,
    end: T,
    top: Option<(T, T)>,
    left: Option<(T, T)>,
    top_left: Option<(T, T)>,
)
    ensures
        final(triangles)@ == old(triangles)@ + left_facets(start, end, top, left, top_left),
{
    if left.is_none() {
        match (top, top_left) {
            (Some((top_start, top_end)), None) => {
                triangles.push((start, top_start, end));
                triangles.push((top_start, top_end, end));
            },
            (Some((top_start, top_end)), Some((top_left_start, top_left_end))) => {
                triangles.push((start, top_start, top_left_start));
                triangles.push((end, top_left_end, top_end));
                triangles.push((start, top_left_start, end));
                triangles.push((top_left_start, top_left_end, end));
            },
            _ => {},
        }
    }
    assert(triangles@ =~= old(triangles)@ + left_facets(start, end, top, left, top_left));
}

/// Appends to `triangles` the triangles that close the surface below a
/// sample without neighbours there.
fn push_bottom_facets<T: Copy>(
    triangles: &mut Vec<(T, T, T)>,
    start: T,
    end: T,
    right: Option<(T, T)>,
    bottom: bool,
    bottom_right: bool,
)
    ensures
        final(triangles)@ == old(triangles)@ + bottom_facets(start, end, right, bottom, bottom_right),
{
    if !bottom && !bottom_right {
        if let Some((right_start, right_end)) = right {
            triangles.push((start, end, right_start));
            triangles.push((right_start, end, right_end));
        }
    }
    assert(triangles@ =~= old(triangles)@ + bottom_facets(start, end, right, bottom, bottom_right));
}


/// The samples taken on a grid of directions: for each yaw step from 0 to
/// `number_of_yaw_samples` and each pitch step from 0 to
/// `number_of_pitch_samples`, both included, at most one pair of points.
pub struct SampleGrid<T> {
    number_of_yaw_samples: u16,
    number_of_pitch_samples: u16,
    columns: Vec<Vec<Option<(T, T)>>>,
}

impl<T> SampleGrid<T> {
    #[verifier::type_invariant]
    spec fn well_formed(self) -> bool {
        &&& self.columns.len() == self.number_of_yaw_samples + 1
        &&& forall|yaw: int|
            0 <= yaw < self.columns.len() ==> (#[trigger] self.columns[yaw]).len()
                == self.number_of_pitch_samples + 1
    }
}

impl<T: Copy> SampleGrid<T> {
    /// The number of yaw steps after the first.
    pub closed spec fn yaw_samples(&self) -> int {
        self.number_of_yaw_samples as int
    }

    /// The number of pitch steps after the first.
    pub closed spec fn pitch_samples(&self) -> int {
        self.number_of_pitch_samples as int
    }

    /// The samples by yaw and pitch step.
    pub closed spec fn view(&self) -> Map<(int, int), (T, T)> {
        Map::new(
            |cell: (int, int)|
                0 <= cell.0 <= self.number_of_yaw_samples && 0 <= cell.1
                    <= self.number_of_pitch_samples && self.columns[cell.0][cell.1] is Some,
            |cell: (int, int)| self.columns[cell.0][cell.1]->0,
        )
    }

    /// Every sample sits on a cell of the grid.
    pub proof fn lemma_samples_on_grid(&self)
        ensures
            forall|yaw: int, pitch: int| #[trigger]
                self@.dom().contains((yaw, pitch)) ==> 0 <= yaw <= self.yaw_samples() && 0 <= pitch
                    <= self.pitch_samples(),
    {
    }

    /// Takes a sample for every cell of the grid: `sample` is asked once
    /// for each yaw and pitch step, column by column, and says whether the
    /// direction has a sample and which.
    pub fn sample_points<F>(
        number_of_yaw_samples: u16,
        number_of_pitch_samples: u16,
        sample: F,
    ) -> (points: Self) where F: Fn(u16, u16) -> Option<(T, T)>
        requires
            forall|yaw: u16, pitch: u16|
                yaw <= number_of_yaw_samples && pitch <= number_of_pitch_samples ==> call_requires(
                    sample,
                    (yaw, pitch),
                ),
        ensures
            points.yaw_samples() == number_of_yaw_samples,
            points.pitch_samples() == number_of_pitch_samples,
            forall|yaw: u16, pitch: u16|
                yaw <= number_of_yaw_samples && pitch <= number_of_pitch_samples ==> call_ensures(
                    sample,
                    (yaw, pitch),
                    #[trigger] sample_at(points@, yaw as int, pitch as int),
                ),
    {
        let mut columns: Vec<Vec<Option<(T, T)>>> = Vec::new();
        let mut yaw: usize = 0;
        while yaw <= number_of_yaw_samples as usize
            invariant
                yaw <= number_of_yaw_samples + 1,
                columns.len() == yaw,
                forall|y: u16, p: u16|
                    y <= number_of_yaw_samples && p <= number_of_pitch_samples ==> call_requires(
                        sample,
                        (y, p),
                    ),
                forall|y: int|
                    0 <= y < yaw ==> (#[trigger] columns[y]).len() == number_of_pitch_samples + 1,
                forall|y: u16, p: u16|
                    y < yaw && p <= number_of_pitch_samples ==> call_ensures(
                        sample,
                        (y, p),
                        #[trigger] columns[y as int][p as int],
                    ),
            decreases number_of_yaw_samples + 1 - yaw,
        {
            let mut column: Vec<Option<(T, T)>> = Vec::new();
            let mut pitch: usize = 0;
            while pitch <= number_of_pitch_samples as usize
                invariant
                    yaw <= number_of_yaw_samples,
                    pitch <= number_of_pitch_samples + 1,
                    column.len() == pitch,
                    forall|y: u16, p: u16|
                        y <= number_of_yaw_samples && p <= number_of_pitch_samples
                            ==> call_requires(sample, (y, p)),
                    forall|p: u16|
                        p < pitch ==> call_ensures(
                            sample,
                            (yaw as u16, p),
                            #[trigger] column[p as int],
                        ),
                decreases number_of_pitch_samples + 1 - pitch,
            {
                column.push(sample(yaw as u16, pitch as u16));
                pitch += 1;
            }
            columns.push(column);
            yaw += 1;
        }
        let points = SampleGrid { number_of_yaw_samples, number_of_pitch_samples, columns };
        assert forall|y: u16, p: u16|
            y <= number_of_yaw_samples && p <= number_of_pitch_samples implies call_ensures(
            sample,
            (y, p),
            #[trigger] sample_at(points@, y as int, p as int),
        ) by {
            assert(call_ensures(sample, (y, p), points.columns[y as int][p as int]));
            assert(sample_at(points@, y as int, p as int) == points.columns[y as int][p as int]);
        }
        points
    }

    /// Returns the number of yaw steps after the first.
    pub fn number_of_yaw_samples(&self) -> (n: u16)
        ensures
            n == self.yaw_samples(),
    {
        self.number_of_yaw_samples
    }

    /// Returns the number of pitch steps after the first.
    pub fn number_of_pitch_samples(&self) -> (n: u16)
        ensures
            n == self.pitch_samples(),
    {
        self.number_of_pitch_samples
    }

    /// Returns the sample of a cell, or `None` where the cell has none or
    /// lies off the grid.
    pub fn get(&self, yaw_step: u16, pitch_step: u16) -> (sample: Option<(T, T)>)
        ensures
            sample == sample_at(self@, yaw_step as int, pitch_step as int),
    {
        proof {
            use_type_invariant(self);
        }
        if yaw_step <= self.number_of_yaw_samples && pitch_step <= self.number_of_pitch_samples {
            self.columns[yaw_step as usize][pitch_step as usize]
        } else {
            None
        }
    }

    /// Joins the samples of neighbouring directions by triangles and
    /// returns the mesh: the triangles of each cell that has a sample,
    /// column by column from the lowest yaw step and, within a column, from
    /// the lowest pitch step.
    ///
    /// A grid with samples has to have more than the one yaw step: with a
    /// single step there is no step to the right of any.
    pub fn construct_vo_mesh(&self) -> (triangles: Vec<(T, T, T)>)
        requires
            self.yaw_samples() > 0 || self@.dom() =~= Set::<(int, int)>::empty(),
        ensures
            triangles@ == mesh(self@, self.yaw_samples(), self.pitch_samples()),
    {
        proof {
            use_type_invariant(self);
        }
        let yaw_samples = self.number_of_yaw_samples as usize;
        let pitch_samples = self.number_of_pitch_samples as usize;
        let mut triangles: Vec<(T, T, T)> = Vec::new();
        let mut yaw: usize = 0;
        while yaw <= yaw_samples
            invariant
                self.well_formed(),
                yaw_samples == self.number_of_yaw_samples,
                pitch_samples == self.number_of_pitch_samples,
                yaw_samples > 0 || self@.dom() =~= Set::<(int, int)>::empty(),
                yaw <= yaw_samples + 1,
                triangles@ == columns_facets(
                    self@,
                    yaw_samples as int,
                    pitch_samples as int,
                    yaw as nat,
                ),
            decreases yaw_samples + 1 - yaw,
        {
            let ghost before = triangles@;
            let mut pitch: usize = 0;
            while pitch <= pitch_samples
                invariant
                    self.well_formed(),
                    yaw_samples == self.number_of_yaw_samples,
                    pitch_samples == self.number_of_pitch_samples,
                    yaw_samples > 0 || self@.dom() =~= Set::<(int, int)>::empty(),
                    yaw <= yaw_samples,
                    pitch <= pitch_samples + 1,
                    triangles@ == before + column_facets(
                        self@,
                        yaw_samples as int,
                        yaw as int,
                        pitch as nat,
                    ),
                decreases pitch_samples + 1 - pitch,
            {
                let ghost so_far = triangles@;
                if let Some((start, end)) = self.columns[yaw][pitch] {
                    proof {
                        self.lemma_sample_at(yaw as int, pitch as int);
                        assert(self@.dom().contains((yaw as int, pitch as int)));
                    }
                    let right_yaw = (yaw + 1) % yaw_samples;
                    let left_yaw = (yaw + yaw_samples - 1) % yaw_samples;
                    let has_top = pitch < pitch_samples;
                    let has_bottom = pitch > 0;
                    let top = if has_top {
                        self.columns[yaw][pitch + 1]
                    } else {
                        None
                    };
                    let right = self.columns[right_yaw][pitch];
                    let top_right = if has_top {
                        self.columns[right_yaw][pitch + 1]
                    } else {
                        None
                    };
                    let left = self.columns[left_yaw][pitch];
                    let top_left = if has_top {
                        self.columns[left_yaw][pitch + 1]
                    } else {
                        None
                    };
                    let bottom = has_bottom && self.columns[yaw][pitch - 1].is_some();
                    let bottom_right = has_bottom && self.columns[right_yaw][pitch - 1].is_some();
                    proof {
                        self.lemma_sample_at(yaw as int, pitch as int);
                        self.lemma_sample_at(yaw as int, pitch + 1);
                        self.lemma_sample_at(right_yaw as int, pitch as int);
                        self.lemma_sample_at(right_yaw as int, pitch + 1);
                        self.lemma_sample_at(left_yaw as int, pitch as int);
                        self.lemma_sample_at(left_yaw as int, pitch + 1);
                        self.lemma_sample_at(yaw as int, pitch - 1);
                        self.lemma_sample_at(right_yaw as int, pitch - 1);
                    }
                    push_forward_facets(&mut triangles, start, end, top, right, top_right);
                    push_left_facets(&mut triangles, start, end, top, left, top_left);
                    push_bottom_facets(&mut triangles, start, end, right, bottom, bottom_right);
                    assert(triangles@ =~= so_far + cell_facets(
                        self@,
                        yaw_samples as int,
                        yaw as int,
                        pitch as int,
                    ));
                } else {
                    proof {
                        self.lemma_sample_at(yaw as int, pitch as int);
                    }
                    assert(triangles@ =~= so_far + cell_facets(
                        self@,
                        yaw_samples as int,
                        yaw as int,
                        pitch as int,
                    ));
                }
                assert(triangles@ =~= before + column_facets(
                    self@,
                    yaw_samples as int,
                    yaw as int,
                    (pitch + 1) as nat,
                ));
                pitch += 1;
            }
            yaw += 1;
        }
        triangles
    }

    /// What the view holds for a cell is what the grid stores there.
    proof fn lemma_sample_at(&self, yaw: int, pitch: int)
        requires
            self.well_formed(),
        ensures
            sample_at(self@, yaw, pitch) == if 0 <= yaw <= self.number_of_yaw_samples && 0 <= pitch
                <= self.number_of_pitch_samples {
                self.columns[yaw][pitch]
            } else {
                None
            },
    {
    }
}

/// Whether `point` is an end of one of `samples`.
pub open spec fn is_sampled<T>(samples: Map<(int, int), (T, T)>, point: T) -> bool {
    exists|cell: (int, int)| #[trigger]
        samples.dom().contains(cell) && (samples[cell].0 == point || samples[cell].1 == point)
}

/// Whether every corner of every one of `facets` is an end of one of
/// `samples`.
pub open spec fn corners_are_sampled<T>(
    samples: Map<(int, int), (T, T)>,
    facets: Seq<(T, T, T)>,
) -> bool {
    forall|k: int|
        0 <= k < facets.len() ==> is_sampled(samples, (#[trigger] facets[k]).0) && is_sampled(
            samples,
            facets[k].1,
        ) && is_sampled(samples, facets[k].2)
}

/// Both ends of the sample of a cell are sampled points.
proof fn lemma_neighbour_is_sampled<T>(samples: Map<(int, int), (T, T)>, yaw: int, pitch: int)
    ensures
        sample_at(samples, yaw, pitch) matches Some(ends) ==> is_sampled(samples, ends.0)
            && is_sampled(samples, ends.1),
{
    if samples.dom().contains((yaw, pitch)) {
        let cell = (yaw, pitch);
        assert(samples.dom().contains(cell));
    }
}

/// Every corner of the triangles of one cell is a sampled point.
proof fn lemma_cell_corners_are_sampled<T>(
    samples: Map<(int, int), (T, T)>,
    yaw_samples: int,
    yaw: int,
    pitch: int,
)
    ensures
        corners_are_sampled(samples, cell_facets(samples, yaw_samples, yaw, pitch)),
{
    let right_yaw = right_of(yaw, yaw_samples);
    let left_yaw = left_of(yaw, yaw_samples);
    lemma_neighbour_is_sampled(samples, yaw, pitch);
    lemma_neighbour_is_sampled(samples, yaw, pitch + 1);
    lemma_neighbour_is_sampled(samples, right_yaw, pitch);
    lemma_neighbour_is_sampled(samples, right_yaw, pitch + 1);
    lemma_neighbour_is_sampled(samples, left_yaw, pitch);
    lemma_neighbour_is_sampled(samples, left_yaw, pitch + 1);
    match sample_at(samples, yaw, pitch) {
        Some((start, end)) => {
            let top = sample_at(samples, yaw, pitch + 1);
            let right = sample_at(samples, right_yaw, pitch);
            let forward = forward_facets(
                start,
                end,
                top,
                right,
                sample_at(samples, right_yaw, pitch + 1),
            );
            let left = left_facets(
                start,
                end,
                top,
                sample_at(samples, left_yaw, pitch),
                sample_at(samples, left_yaw, pitch + 1),
            );
            let bottom = bottom_facets(
                start,
                end,
                right,
                sample_at(samples, yaw, pitch - 1) is Some,
                sample_at(samples, right_yaw, pitch - 1) is Some,
            );
            assert(corners_are_sampled(samples, forward));
            assert(corners_are_sampled(samples, left));
            assert(corners_are_sampled(samples, bottom));
            lemma_joined_corners_are_sampled(samples, forward, left);
            lemma_joined_corners_are_sampled(samples, forward + left, bottom);
        },
        None => {},
    }
}

/// Joining two lists of triangles whose corners are sampled gives such a list.
proof fn lemma_joined_corners_are_sampled<T>(
    samples: Map<(int, int), (T, T)>,
    first: Seq<(T, T, T)>,
    second: Seq<(T, T, T)>,
)
    requires
        corners_are_sampled(samples, first),
        corners_are_sampled(samples, second),
    ensures
        corners_are_sampled(samples, first + second),
{
    let joined = first + second;
    assert forall|k: int| 0 <= k < joined.len() implies is_sampled(
        samples,
        (#[trigger] joined[k]).0,
    ) && is_sampled(samples, joined[k].1) && is_sampled(samples, joined[k].2) by {
        if k < first.len() {
            assert(joined[k] == first[k]);
        } else {
            assert(joined[k] == second[k - first.len()]);
        }
    }
}

/// Every corner of the triangles of a column is a sampled point.
proof fn lemma_column_corners_are_sampled<T>(
    samples: Map<(int, int), (T, T)>,
    yaw_samples: int,
    yaw: int,
    count: nat,
)
    ensures
        corners_are_sampled(samples, column_facets(samples, yaw_samples, yaw, count)),
    decreases count,
{
    if count > 0 {
        lemma_column_corners_are_sampled(samples, yaw_samples, yaw, (count - 1) as nat);
        lemma_cell_corners_are_sampled(samples, yaw_samples, yaw, count - 1);
        lemma_joined_corners_are_sampled(
            samples,
            column_facets(samples, yaw_samples, yaw, (count - 1) as nat),
            cell_facets(samples, yaw_samples, yaw, count - 1),
        );
    }
}

/// Every corner of the triangles of the first columns is a sampled point.
proof fn lemma_columns_corners_are_sampled<T>(
    samples: Map<(int, int), (T, T)>,
    yaw_samples: int,
    pitch_samples: int,
    count: nat,
)
    ensures
        corners_are_sampled(samples, columns_facets(samples, yaw_samples, pitch_samples, count)),
    decreases count,
{
    if count > 0 {
        lemma_columns_corners_are_sampled(samples, yaw_samples, pitch_samples, (count - 1) as nat);
        lemma_column_corners_are_sampled(
            samples,
            yaw_samples,
            count - 1,
            (pitch_samples + 1) as nat,
        );
        lemma_joined_corners_are_sampled(
            samples,
            columns_facets(samples, yaw_samples, pitch_samples, (count - 1) as nat),
            column_facets(samples, yaw_samples, count - 1, (pitch_samples + 1) as nat),
        );
    }
}

/// The mesh adds no point of its own: every corner of every triangle is an
/// end of a sample.
pub proof fn lemma_mesh_corners_are_sampled<T>(
    samples: Map<(int, int), (T, T)>,
    yaw_samples: int,
    pitch_samples: int,
)
    ensures
        corners_are_sampled(samples, mesh(samples, yaw_samples, pitch_samples)),
{
    lemma_columns_corners_are_sampled(
        samples,
        yaw_samples,
        pitch_samples,
        (yaw_samples + 1) as nat,
    );
}

/// Without samples there is no mesh.
pub proof fn lemma_mesh_without_samples_is_empty<T>(yaw_samples: int, pitch_samples: int)
    ensures
        mesh(Map::<(int, int), (T, T)>::empty(), yaw_samples, pitch_samples) == Seq::<
            (T, T, T),
        >::empty(),
{
    lemma_columns_without_samples_are_empty::<T>(
        yaw_samples,
        pitch_samples,
        (yaw_samples + 1) as nat,
    );
}

/// Columns without samples have no triangles.
proof fn lemma_columns_without_samples_are_empty<T>(
    yaw_samples: int,
    pitch_samples: int,
    count: nat,
)
    ensures
        columns_facets(Map::<(int, int), (T, T)>::empty(), yaw_samples, pitch_samples, count)
            =~= Seq::<(T, T, T)>::empty(),
    decreases count,
{
    if count > 0 {
        lemma_columns_without_samples_are_empty::<T>(
            yaw_samples,
            pitch_samples,
            (count - 1) as nat,
        );
        lemma_column_without_samples_is_empty::<T>(
            yaw_samples,
            count - 1,
            (pitch_samples + 1) as nat,
        );
    }
}

/// A column without samples has no triangles.
proof fn lemma_column_without_samples_is_empty<T>(yaw_samples: int, yaw: int, count: nat)
    ensures
        column_facets(Map::<(int, int), (T, T)>::empty(), yaw_samples, yaw, count) =~= Seq::<
            (T, T, T),
        >::empty(),
    decreases count,
{
    if count > 0 {
        lemma_column_without_samples_is_empty::<T>(yaw_samples, yaw, (count - 1) as nat);
    }
}

} // verus!
