//! The sampled surface of a velocity obstacle: taking the samples and
//! joining them by triangles.

use std::cell::Cell;

use bevy_math::Vec3;
use orca::SampleGrid;

/// The two ends of the sample of a cell, told apart by their numbers.
fn ends(yaw: u16, pitch: u16) -> (u32, u32) {
    let cell = u32::from(yaw) * 100 + u32::from(pitch);
    (cell * 10, cell * 10 + 1)
}

/// A grid with samples on the cells listed and nowhere else.
fn grid(yaw_samples: u16, pitch_samples: u16, cells: &[(u16, u16)]) -> SampleGrid<u32> {
    SampleGrid::sample_points(yaw_samples, pitch_samples, |yaw, pitch| {
        if cells.contains(&(yaw, pitch)) {
            Some(ends(yaw, pitch))
        } else {
            None
        }
    })
}

#[test]
fn every_direction_is_sampled_once() {
    let calls = Cell::new(0_u32);

    let points = SampleGrid::sample_points(4, 2, |yaw, pitch| {
        calls.set(calls.get() + 1);
        if yaw == pitch {
            Some((yaw, pitch))
        } else {
            None
        }
    });

    assert_eq!(calls.get(), 5 * 3);
    assert_eq!(points.number_of_yaw_samples(), 4);
    assert_eq!(points.number_of_pitch_samples(), 2);
    for yaw in 0..=4 {
        for pitch in 0..=2 {
            let expected = if yaw == pitch { Some((yaw, pitch)) } else { None };
            assert_eq!(points.get(yaw, pitch), expected);
        }
    }
}

#[test]
fn cells_off_the_grid_have_no_sample() {
    let points = SampleGrid::sample_points(2, 2, |yaw, pitch| Some((yaw, pitch)));

    assert_eq!(points.get(2, 2), Some((2, 2)));
    assert_eq!(points.get(3, 0), None);
    assert_eq!(points.get(0, 3), None);
}

#[test]
fn grid_without_samples_has_no_triangles() {
    assert!(grid(4, 2, &[]).construct_vo_mesh().is_empty());
}

#[test]
fn grid_of_a_single_direction_without_a_sample_has_no_triangles() {
    assert!(grid(0, 0, &[]).construct_vo_mesh().is_empty());
    assert!(grid(0, 3, &[]).construct_vo_mesh().is_empty());
}

#[test]
fn lone_sample_has_no_triangles() {
    assert!(grid(4, 2, &[(1, 1)]).construct_vo_mesh().is_empty());
}

#[test]
fn sample_is_joined_to_its_right_neighbour() {
    let (start, end) = ends(1, 1);
    let (right_start, right_end) = ends(2, 1);

    let triangles = grid(4, 2, &[(1, 1), (2, 1)]).construct_vo_mesh();

    assert_eq!(
        triangles,
        vec![
            // towards the neighbour
            (start, right_start, end),
            (right_start, right_end, end),
            // the closing below, where neither cell has a neighbour
            (start, end, right_start),
            (right_start, end, right_end),
        ]
    );
}

#[test]
fn sample_is_joined_to_its_top_neighbour() {
    let (start, end) = ends(1, 0);
    let (top_start, top_end) = ends(1, 1);

    let triangles = grid(4, 2, &[(1, 0), (1, 1)]).construct_vo_mesh();

    assert_eq!(
        triangles,
        vec![
            // towards the neighbour
            (start, end, top_start),
            (top_start, end, top_end),
            // the closing on the left, where neither cell has a neighbour
            (start, top_start, end),
            (top_start, top_end, end),
        ]
    );
}

#[test]
fn sample_with_right_and_diagonal_neighbours() {
    let (start, end) = ends(1, 0);
    let (right_start, right_end) = ends(2, 0);
    let (top_right_start, top_right_end) = ends(2, 1);
    let cells = [(1, 0), (2, 0), (2, 1)];

    let triangles = grid(4, 2, &cells).construct_vo_mesh();

    assert_eq!(
        triangles,
        vec![
            // cell (1, 0): right and diagonal neighbours
            (start, right_start, top_right_start),
            (end, top_right_end, right_end),
            (start, top_right_start, end),
            (top_right_start, top_right_end, end),
            (start, end, right_start),
            (right_start, end, right_end),
            // cell (2, 0): only the neighbour above; its left neighbour is there
            (right_start, right_end, top_right_start),
            (top_right_start, right_end, top_right_end),
        ]
    );
}

#[test]
fn sample_with_top_and_diagonal_neighbours() {
    let (start, end) = ends(1, 0);
    let (top_start, top_end) = ends(1, 1);
    let (top_right_start, top_right_end) = ends(2, 1);
    let cells = [(1, 0), (1, 1), (2, 1)];

    let triangles = grid(4, 2, &cells).construct_vo_mesh();

    assert_eq!(
        triangles,
        vec![
            // cell (1, 0): top and diagonal neighbours
            (start, top_right_start, top_start),
            (end, top_end, top_right_end),
            (start, end, top_right_start),
            (top_right_start, end, top_right_end),
            (start, top_start, end),
            (top_start, top_end, end),
            // cell (1, 1): only the right neighbour; the cell below it is there
            (top_start, top_right_start, top_end),
            (top_right_start, top_right_end, top_end),
        ]
    );
}

#[test]
fn sample_with_top_and_right_neighbours() {
    let (start, end) = ends(1, 0);
    let (top_start, top_end) = ends(1, 1);
    let (right_start, right_end) = ends(2, 0);
    let cells = [(1, 0), (1, 1), (2, 0)];

    let triangles = grid(4, 2, &cells).construct_vo_mesh();

    assert_eq!(
        triangles,
        vec![
            // cell (1, 0): top and right neighbours, none on the diagonal
            (start, right_start, top_start),
            (end, top_end, right_end),
            (top_start, right_start, right_end),
            (top_start, right_end, top_end),
            (start, top_start, end),
            (top_start, top_end, end),
            (start, end, right_start),
            (right_start, end, right_end),
        ]
    );
}

#[test]
fn sample_with_all_three_neighbours() {
    let (start, end) = ends(1, 0);
    let (top_start, top_end) = ends(1, 1);
    let (right_start, right_end) = ends(2, 0);
    let (top_right_start, top_right_end) = ends(2, 1);
    let cells = [(1, 0), (1, 1), (2, 0), (2, 1)];

    let triangles = grid(4, 2, &cells).construct_vo_mesh();

    assert_eq!(
        triangles,
        vec![
            // cell (1, 0)
            (start, right_start, top_start),
            (end, top_end, right_end),
            (top_start, right_start, top_right_start),
            (top_end, top_right_end, right_end),
            (start, top_start, end),
            (top_start, top_end, end),
            (start, end, right_start),
            (right_start, end, right_end),
            // cell (1, 1): the right neighbour; the cell below it is there
            (top_start, top_right_start, top_end),
            (top_right_start, top_right_end, top_end),
            // cell (2, 0): the neighbour above; its left neighbour is there
            (right_start, right_end, top_right_start),
            (top_right_start, right_end, top_right_end),
        ]
    );
}

#[test]
fn diagonal_neighbour_alone_joins_nothing() {
    assert!(grid(4, 2, &[(1, 0), (2, 1)]).construct_vo_mesh().is_empty());
}

#[test]
fn left_closing_reaches_the_diagonal_neighbour_on_the_left() {
    let (start, end) = ends(2, 0);
    let (top_start, top_end) = ends(2, 1);
    let (top_left_start, top_left_end) = ends(1, 1);
    let cells = [(1, 1), (2, 0), (2, 1)];

    let triangles = grid(4, 2, &cells).construct_vo_mesh();

    assert_eq!(
        triangles,
        vec![
            // cell (1, 1): only the right neighbour; diagonally below there is a cell
            (top_left_start, top_start, top_left_end),
            (top_start, top_end, top_left_end),
            // cell (2, 0): the neighbour above
            (start, end, top_start),
            (top_start, end, top_end),
            // cell (2, 0): no left neighbour, but one diagonally above on the left
            (start, top_start, top_left_start),
            (end, top_left_end, top_end),
            (start, top_left_start, end),
            (top_left_start, top_left_end, end),
        ]
    );
}

#[test]
fn grid_closes_on_itself_in_yaw() {
    let (start, end) = ends(3, 0);
    let (first_start, first_end) = ends(0, 0);

    let triangles = grid(4, 2, &[(0, 0), (3, 0)]).construct_vo_mesh();

    // The cell at the last but one yaw step has the first column on its
    // right. The first column has that cell on its left.
    assert_eq!(
        triangles,
        vec![
            (start, first_start, end),
            (first_start, first_end, end),
            (start, end, first_start),
            (first_start, end, first_end),
        ]
    );
}

#[test]
fn last_yaw_step_has_the_second_column_on_its_right() {
    let (start, end) = ends(4, 1);
    let (right_start, right_end) = ends(1, 1);

    let triangles = grid(4, 2, &[(1, 1), (4, 1)]).construct_vo_mesh();

    assert_eq!(
        triangles,
        vec![
            (start, right_start, end),
            (right_start, right_end, end),
            (start, end, right_start),
            (right_start, end, right_end),
        ]
    );
}

#[test]
fn grid_ends_at_the_poles_in_pitch() {
    // The cell at the highest pitch step has nothing above it and the cell
    // at the lowest nothing below: the two are not neighbours.
    assert!(grid(4, 2, &[(1, 0), (1, 2)]).construct_vo_mesh().is_empty());
}

#[test]
fn single_yaw_step_makes_every_column_its_own_neighbour() {
    let (start, end) = ends(0, 0);

    let triangles = grid(1, 0, &[(0, 0)]).construct_vo_mesh();

    assert_eq!(
        triangles,
        vec![(start, start, end), (start, end, end), (start, end, start), (start, end, end)]
    );
}

#[test]
fn mesh_of_points_in_space() {
    let direction = |yaw: u16, pitch: u16| {
        Vec3::new(f32::from(yaw), f32::from(pitch), 1.0)
    };
    let points = SampleGrid::sample_points(2, 1, |yaw, pitch| {
        if pitch == 0 && yaw < 2 {
            Some((direction(yaw, pitch), direction(yaw, pitch) * 2.0))
        } else {
            None
        }
    });

    let triangles = points.construct_vo_mesh();

    let a = direction(0, 0);
    let b = direction(1, 0);
    assert_eq!(
        triangles,
        vec![
            // cell (0, 0) towards cell (1, 0), and the closing below
            (a, b, a * 2.0),
            (b, b * 2.0, a * 2.0),
            (a, a * 2.0, b),
            (b, a * 2.0, b * 2.0),
            // cell (1, 0) towards cell (0, 0), which is on its right as well
            (b, a, b * 2.0),
            (a, a * 2.0, b * 2.0),
            (b, b * 2.0, a),
            (a, b * 2.0, a * 2.0),
        ]
    );
}
