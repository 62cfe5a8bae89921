//! A dense matrix of any kind of entry.
//!
//! The entries are kept row by row in one vector. Transposing does not move
//! them: the matrix remembers that it is to be read the other way round.
//!
//! A matrix is usually made from as many entries as it has cells. Where it
//! is made from another number of entries, the cells are laid over the
//! entries again and again, so that every cell still has an entry.

use vstd::prelude::*;
use vstd::arithmetic::div_mod::{lemma_mod_bound, lemma_small_mod};

verus! {

/// The place among `len` entries of the cell in row `row` and column `col`
/// of a matrix with `cols` columns.
pub open spec fn cell_place(row: int, col: int, cols: int, len: int) -> int {
    (row * cols + col) % len
}

/// A matrix with `rows()` rows and `cols()` columns.
pub struct Matrix<T> {
    data: Vec<T>,
    rows: usize,
    cols: usize,
    transposed: bool,
}

impl<T> Matrix<T> {
    #[verifier::type_invariant]
    spec fn well_formed(self) -> bool {
        self.data.len() > 0 || self.rows == 0 || self.cols == 0
    }
}

impl<T: Copy> Matrix<T> {
    /// The number of rows.
    pub closed spec fn spec_rows(&self) -> nat {
        if self.transposed {
            self.cols as nat
        } else {
            self.rows as nat
        }
    }

    /// The number of columns.
    pub closed spec fn spec_cols(&self) -> nat {
        if self.transposed {
            self.rows as nat
        } else {
            self.cols as nat
        }
    }

    /// The entry in row `row` and column `col`.
    pub closed spec fn at(&self, row: int, col: int) -> T {
        if self.transposed {
            self.data[cell_place(col, row, self.cols as int, self.data.len() as int)]
        } else {
            self.data[cell_place(row, col, self.cols as int, self.data.len() as int)]
        }
    }

    /// Makes the matrix of `rows` rows and `cols` columns whose entries are
    /// those of `data`, row by row.
    ///
    /// A matrix with cells needs at least one entry.
    pub fn new(data: Vec<T>, cols: usize, rows: usize) -> (matrix: Self)
        requires
            data.len() > 0 || cols == 0 || rows == 0,
        ensures
            matrix.spec_rows() == rows,
            matrix.spec_cols() == cols,
            forall|row: int, col: int|
                0 <= row < rows && 0 <= col < cols ==> matrix.at(row, col) == data[cell_place(
                    row,
                    col,
                    cols as int,
                    data.len() as int,
                )],
            data.len() == cols * rows ==> forall|row: int, col: int|
                0 <= row < rows && 0 <= col < cols ==> matrix.at(row, col) == data[row * cols
                    + col],
    {
        let matrix = Matrix { data, rows, cols, transposed: false };
        assert forall|row: int, col: int|
            data.len() == cols * rows && 0 <= row < rows && 0 <= col < cols implies matrix.at(
            row,
            col,
        ) == data[row * cols + col] by {
            lemma_cell_index(row, col, rows as int, cols as int);
            assert(cols * rows == rows * cols) by (nonlinear_arith);
            lemma_small_mod((row * cols + col) as nat, data.len() as nat);
        }
        matrix
    }

    /// Makes the matrix with the given rows.
    pub fn from_slice<const COLS: usize, const ROWS: usize>(rows: [[T; COLS]; ROWS]) -> (matrix:
        Self)
        ensures
            matrix.spec_rows() == ROWS,
            matrix.spec_cols() == COLS,
            forall|row: int, col: int|
                0 <= row < ROWS && 0 <= col < COLS ==> matrix.at(row, col) == rows[row][col],
    {
        let mut data: Vec<T> = Vec::new();
        let mut row: usize = 0;
        while row < ROWS
            invariant
                row <= ROWS,
                data.len() == row * COLS,
                forall|r: int, c: int|
                    0 <= r < row && 0 <= c < COLS ==> data[#[trigger] (r * COLS + c)] == rows[r][c],
            decreases ROWS - row,
        {
            let mut col: usize = 0;
            while col < COLS
                invariant
                    row < ROWS,
                    col <= COLS,
                    data.len() == row * COLS + col,
                    forall|r: int, c: int|
                        0 <= r < row && 0 <= c < COLS ==> data[#[trigger] (r * COLS + c)]
                            == rows[r][c],
                    forall|c: int| 0 <= c < col ==> data[row * COLS + c] == rows[row as int][c],
                decreases COLS - col,
            {
                let ghost before = data@;
                proof {
                    lemma_cell_index(row as int, col as int, ROWS as int, COLS as int);
                }
                data.push(rows[row][col]);
                assert forall|r: int, c: int| 0 <= r < row && 0 <= c < COLS implies data[
                #[trigger] (r * COLS + c)] == rows[r][c] by {
                    lemma_cell_index(r, c, row as int, COLS as int);
                    assert(data[r * COLS + c] == before[r * COLS + c]);
                }
                col += 1;
            }
            assert((row + 1) * COLS == row * COLS + COLS) by (nonlinear_arith);
            assert forall|r: int, c: int| 0 <= r < row + 1 && 0 <= c < COLS implies data[
            #[trigger] (r * COLS + c)] == rows[r][c] by {
                if r == row {
                    assert(data[row * COLS + c] == rows[row as int][c]);
                }
            }
            row += 1;
        }
        let ghost entries = data@;
        assert(ROWS > 0 && COLS > 0 ==> data.len() > 0) by (nonlinear_arith)
            requires
                data.len() == ROWS * COLS,
        ;
        let matrix = Matrix { data, rows: ROWS, cols: COLS, transposed: false };
        assert forall|r: int, c: int| 0 <= r < ROWS && 0 <= c < COLS implies matrix.at(r, c)
            == rows[r][c] by {
            lemma_cell_index(r, c, ROWS as int, COLS as int);
            lemma_small_mod((r * COLS + c) as nat, entries.len());
            assert(entries[r * COLS + c] == rows[r][c]);
        }
        matrix
    }

    /// Makes the matrix of the given size with every entry equal to `zero`.
    pub fn empty(cols: usize, rows: usize, zero: T) -> (matrix: Self)
        requires
            cols * rows <= usize::MAX,
        ensures
            matrix.spec_rows() == rows,
            matrix.spec_cols() == cols,
            forall|row: int, col: int|
                0 <= row < rows && 0 <= col < cols ==> matrix.at(row, col) == zero,
    {
        let len = cols * rows;
        let mut data: Vec<T> = Vec::new();
        let mut i: usize = 0;
        while i < len
            invariant
                i <= len,
                data.len() == i,
                forall|k: int| 0 <= k < i ==> data[k] == zero,
            decreases len - i,
        {
            data.push(zero);
            i += 1;
        }
        assert(rows > 0 && cols > 0 ==> len > 0) by (nonlinear_arith)
            requires
                len == cols * rows,
        ;
        let matrix = Matrix { data, rows, cols, transposed: false };
        assert forall|row: int, col: int| 0 <= row < rows && 0 <= col < cols implies matrix.at(
            row,
            col,
        ) == zero by {
            lemma_mod_bound(row * cols + col, len as int);
        }
        matrix
    }

    /// Makes the square matrix of the given size with `one` on the diagonal
    /// and `zero` everywhere else.
    pub fn identity(size: usize, zero: T, one: T) -> (matrix: Self)
        requires
            size * size <= usize::MAX,
        ensures
            matrix.spec_rows() == size,
            matrix.spec_cols() == size,
            forall|row: int, col: int|
                0 <= row < size && 0 <= col < size ==> matrix.at(row, col) == if row == col {
                    one
                } else {
                    zero
                },
    {
        let mut data: Vec<T> = Vec::new();
        let mut row: usize = 0;
        while row < size
            invariant
                row <= size,
                data.len() == row * size,
                size * size <= usize::MAX,
                forall|r: int, c: int|
                    0 <= r < row && 0 <= c < size ==> data[#[trigger] (r * size + c)] == if r == c {
                        one
                    } else {
                        zero
                    },
            decreases size - row,
        {
            let mut col: usize = 0;
            while col < size
                invariant
                    row < size,
                    col <= size,
                    data.len() == row * size + col,
                    forall|r: int, c: int|
                        0 <= r < row && 0 <= c < size ==> data[#[trigger] (r * size + c)] == if r
                            == c {
                            one
                        } else {
                            zero
                        },
                    forall|c: int|
                        0 <= c < col ==> #[trigger] data[row * size + c] == if row == c {
                            one
                        } else {
                            zero
                        },
                decreases size - col,
            {
                let ghost before = data@;
                data.push(
                    if row == col {
                        one
                    } else {
                        zero
                    },
                );
                assert forall|r: int, c: int| 0 <= r < row && 0 <= c < size implies data[
                #[trigger] (r * size + c)] == if r == c {
                    one
                } else {
                    zero
                } by {
                    lemma_cell_index(r, c, row as int, size as int);
                    assert(data[r * size + c] == before[r * size + c]);
                }
                col += 1;
            }
            assert((row + 1) * size == row * size + size) by (nonlinear_arith);
            assert forall|r: int, c: int| 0 <= r < row + 1 && 0 <= c < size implies data[
            #[trigger] (r * size + c)] == if r == c {
                one
            } else {
                zero
            } by {
                if r == row {
                    assert(data[row * size + c] == if row == c {
                        one
                    } else {
                        zero
                    });
                }
            }
            row += 1;
        }
        let ghost entries = data@;
        assert(size > 0 ==> data.len() > 0) by (nonlinear_arith)
            requires
                data.len() == size * size,
        ;
        let matrix = Matrix { data, rows: size, cols: size, transposed: false };
        assert forall|r: int, c: int| 0 <= r < size && 0 <= c < size implies matrix.at(r, c)
            == if r == c {
            one
        } else {
            zero
        } by {
            lemma_cell_index(r, c, size as int, size as int);
            lemma_small_mod((r * size + c) as nat, entries.len());
        }
        matrix
    }

    /// Returns the number of rows.
    pub fn rows(&self) -> (n: usize)
        ensures
            n == self.spec_rows(),
    {
        if self.transposed {
            self.cols
        } else {
            self.rows
        }
    }

    /// Returns the number of columns.
    pub fn cols(&self) -> (n: usize)
        ensures
            n == self.spec_cols(),
    {
        if self.transposed {
            self.rows
        } else {
            self.cols
        }
    }

    /// Returns the entry in row `row` and column `col`, or `None` where the
    /// matrix has no such row or column.
    pub fn get(&self, row: usize, col: usize) -> (entry: Option<T>)
        ensures
            entry == if row < self.spec_rows() && col < self.spec_cols() {
                Some(self.at(row as int, col as int))
            } else {
                None
            },
    {
        proof {
            use_type_invariant(self);
        }
        if row >= self.rows() || col >= self.cols() {
            return None;
        }
        let (stored_row, stored_col) = if self.transposed {
            (col, row)
        } else {
            (row, col)
        };
        Some(self.data[place(stored_row, stored_col, self.cols, self.data.len())])
    }

    /// Transposes the matrix in place: rows become columns.
    pub fn transpose(&mut self)
        ensures
            final(self).spec_rows() == old(self).spec_cols(),
            final(self).spec_cols() == old(self).spec_rows(),
            forall|row: int, col: int| final(self).at(row, col) == old(self).at(col, row),
    {
        proof {
            use_type_invariant(&*self);
        }
        self.transposed = !self.transposed;
    }

    /// Returns a copy of the matrix.
    pub fn duplicate(&self) -> (matrix: Matrix<T>)
        ensures
            matrix.spec_rows() == self.spec_rows(),
            matrix.spec_cols() == self.spec_cols(),
            forall|row: int, col: int| matrix.at(row, col) == self.at(row, col),
    {
        self.transposed().transposed()
    }

    /// Returns the transposed matrix: its entry in row `row` and column
    /// `col` is this matrix's entry in row `col` and column `row`.
    pub fn transposed(&self) -> (matrix: Matrix<T>)
        ensures
            matrix.spec_rows() == self.spec_cols(),
            matrix.spec_cols() == self.spec_rows(),
            forall|row: int, col: int| matrix.at(row, col) == self.at(col, row),
    {
        proof {
            use_type_invariant(self);
        }
        let mut data: Vec<T> = Vec::new();
        let mut i: usize = 0;
        while i < self.data.len()
            invariant
                i <= self.data.len(),
                data@ == self.data@.subrange(0, i as int),
            decreases self.data.len() - i,
        {
            data.push(self.data[i]);
            assert(data@ =~= self.data@.subrange(0, i + 1));
            i += 1;
        }
        assert(data@ =~= self.data@);
        Matrix { data, rows: self.rows, cols: self.cols, transposed: !self.transposed }
    }
}

/// Computes the place among `len` entries of the cell in row `row` and
/// column `col` of a matrix with `cols` columns.
fn place(row: usize, col: usize, cols: usize, len: usize) -> (index: usize)
    requires
        len > 0,
    ensures
        index == cell_place(row as int, col as int, cols as int, len as int),
        index < len,
{
    assert(row * cols + col <= u128::MAX) by (nonlinear_arith)
        requires
            0 <= row <= 0xffff_ffff_ffff_ffff,
            0 <= cols <= 0xffff_ffff_ffff_ffff,
            0 <= col <= 0xffff_ffff_ffff_ffff,
    ;
    assert(row * cols <= u128::MAX) by (nonlinear_arith)
        requires
            0 <= row <= 0xffff_ffff_ffff_ffff,
            0 <= cols <= 0xffff_ffff_ffff_ffff,
    ;
    let wide: u128 = (row as u128) * (cols as u128) + (col as u128);
    proof {
        lemma_mod_bound(wide as int, len as int);
    }
    (wide % (len as u128)) as usize
}

/// The place of a cell in the row-by-row order lies within the matrix.
proof fn lemma_cell_index(row: int, col: int, rows: int, cols: int)
    requires
        0 <= row < rows,
        0 <= col < cols,
    ensures
        0 <= row * cols + col < rows * cols,
{
    assert(row * cols + col < rows * cols) by (nonlinear_arith)
        requires
            0 <= row < rows,
            0 <= col < cols,
    {
        assert((row + 1) * cols <= rows * cols);
    }
    assert(0 <= row * cols) by (nonlinear_arith)
        requires
            0 <= row,
            0 <= cols,
    ;
}

} // verus!
