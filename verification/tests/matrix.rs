//! The matrix container: its size, its entries and its transposition.

use orca::Matrix;

#[test]
fn test_matrix_transpose() {
    let m1 = Matrix::from_slice([[1.0, 2.0], [3.0, 4.0]]);
    let m2 = m1.transposed();
    assert_eq!(m2.get(0, 0).unwrap(), 1.0);
    assert_eq!(m2.get(0, 1).unwrap(), 3.0);
    assert_eq!(m2.get(1, 0).unwrap(), 2.0);
    assert_eq!(m2.get(1, 1).unwrap(), 4.0);
}

#[test]
fn test_matrix_transpose_non_square() {
    let m1 = Matrix::from_slice([[1.0, 2.0, 3.0], [4.0, 5.0, 6.0]]);

    let m2 = m1.transposed();

    assert_eq!(m2.get(0, 0).unwrap(), 1.0);
    assert_eq!(m2.get(0, 1).unwrap(), 4.0);
    assert_eq!(m2.get(1, 0).unwrap(), 2.0);
    assert_eq!(m2.get(1, 1).unwrap(), 5.0);
    assert_eq!(m2.get(2, 0).unwrap(), 3.0);
    assert_eq!(m2.get(2, 1).unwrap(), 6.0);
}

#[test]
fn matrix_from_rows_keeps_size_and_entries() {
    let matrix = Matrix::from_slice([[1, 2, 3], [4, 5, 6]]);

    assert_eq!(matrix.rows(), 2);
    assert_eq!(matrix.cols(), 3);
    for row in 0..2 {
        for col in 0..3 {
            assert_eq!(matrix.get(row, col), Some(row * 3 + col + 1));
        }
    }
}

#[test]
fn matrix_from_entries_reads_them_row_by_row() {
    let matrix = Matrix::new(vec![10, 11, 12, 20, 21, 22], 3, 2);

    assert_eq!(matrix.rows(), 2);
    assert_eq!(matrix.cols(), 3);
    assert_eq!(matrix.get(0, 2), Some(12));
    assert_eq!(matrix.get(1, 0), Some(20));
}

#[test]
fn matrix_has_no_entry_outside_its_size() {
    let matrix = Matrix::from_slice([[1, 2, 3], [4, 5, 6]]);

    assert_eq!(matrix.get(2, 0), None);
    assert_eq!(matrix.get(0, 3), None);
    assert_eq!(matrix.transposed().get(0, 2), None);
    assert_eq!(matrix.transposed().get(2, 1), Some(6));
}

#[test]
fn matrix_without_rows_has_no_entry() {
    let matrix: Matrix<u8> = Matrix::new(Vec::new(), 4, 0);

    assert_eq!(matrix.rows(), 0);
    assert_eq!(matrix.cols(), 4);
    assert_eq!(matrix.get(0, 0), None);
}

#[test]
fn transposing_in_place_swaps_rows_and_columns() {
    let mut matrix = Matrix::from_slice([[1, 2, 3], [4, 5, 6]]);

    matrix.transpose();

    assert_eq!(matrix.rows(), 3);
    assert_eq!(matrix.cols(), 2);
    assert_eq!(matrix.get(2, 0), Some(3));
    assert_eq!(matrix.get(0, 1), Some(4));
}

#[test]
fn transposing_twice_gives_the_matrix_back() {
    let matrix = Matrix::from_slice([[1, 2, 3], [4, 5, 6]]);

    let twice = matrix.transposed().transposed();

    assert_eq!(twice.rows(), 2);
    assert_eq!(twice.cols(), 3);
    for row in 0..2 {
        for col in 0..3 {
            assert_eq!(twice.get(row, col), matrix.get(row, col));
        }
    }
}

#[test]
fn empty_matrix_holds_the_given_entry_everywhere() {
    let matrix = Matrix::empty(2, 3, 0.0);

    assert_eq!(matrix.rows(), 3);
    assert_eq!(matrix.cols(), 2);
    for row in 0..3 {
        for col in 0..2 {
            assert_eq!(matrix.get(row, col), Some(0.0));
        }
    }
}

#[test]
fn identity_matrix_has_ones_on_the_diagonal_only() {
    let matrix = Matrix::identity(3, 0.0, 1.0);

    assert_eq!(matrix.rows(), 3);
    assert_eq!(matrix.cols(), 3);
    for row in 0..3 {
        for col in 0..3 {
            let expected = if row == col { 1.0 } else { 0.0 };
            assert_eq!(matrix.get(row, col), Some(expected));
        }
    }
}

#[test]
fn too_few_entries_are_laid_out_again_and_again() {
    let matrix = Matrix::new(vec![1, 2, 3, 4], 3, 2);

    assert_eq!(matrix.rows(), 2);
    assert_eq!(matrix.cols(), 3);
    assert_eq!(matrix.get(0, 0), Some(1));
    assert_eq!(matrix.get(0, 2), Some(3));
    assert_eq!(matrix.get(1, 0), Some(4));
    assert_eq!(matrix.get(1, 1), Some(1));
    assert_eq!(matrix.get(1, 2), Some(2));
    assert_eq!(matrix.transposed().get(2, 1), Some(2));
}

#[test]
fn entries_beyond_the_cells_are_not_read() {
    let matrix = Matrix::new(vec![1, 2, 3, 4, 5, 6, 7], 2, 2);

    assert_eq!(matrix.get(1, 1), Some(4));
    assert_eq!(matrix.get(2, 0), None);
}

#[test]
fn duplicate_is_the_same_matrix() {
    let matrix = Matrix::from_slice([[1, 2], [3, 4], [5, 6]]).transposed();

    let copy = matrix.duplicate();

    assert_eq!(copy.rows(), 2);
    assert_eq!(copy.cols(), 3);
    for row in 0..2 {
        for col in 0..3 {
            assert_eq!(copy.get(row, col), matrix.get(row, col));
        }
    }
}
