use crate::error::LinalgError;
use vstd::arithmetic::div_mod::{lemma_fundamental_div_mod, lemma_fundamental_div_mod_converse};
use vstd::arithmetic::mul::lemma_mul_inequality;
use vstd::prelude::*;

verus! {

/// Which triangle of a square buffer holds the data: on the way into a
/// factorization the triangle that is read, afterwards the triangle in which
/// the factor lies.
#[derive(Clone, Copy, Debug, PartialEq, Eq, Structural)]
pub enum UPLO {
    Upper,
    Lower,
}

impl UPLO {
    /// Whether the entry in row `i` and column `j` lies in the triangle, the
    /// diagonal counted in.
    pub open spec fn keeps(self, i: int, j: int) -> bool {
        match self {
            UPLO::Upper => i <= j,
            UPLO::Lower => i >= j,
        }
    }

    /// Whether the entry in row `i` and column `j` lies in the triangle.
    pub fn contains(self, i: usize, j: usize) -> (b: bool)
        ensures
            b == self.keeps(i as int, j as int),
    {
        match self {
            UPLO::Upper => i <= j,
            UPLO::Lower => i >= j,
        }
    }
}

/// The order in which a dense buffer holds the entries of a matrix.
#[derive(Clone, Copy, Debug, PartialEq, Eq, Structural)]
pub enum Order {
    /// Row after row: the entries of one row lie side by side.
    RowMajor,
    /// Column after column: the entries of one column lie side by side.
    ColumnMajor,
}

impl Order {
    /// The order that the same buffer has once rows and columns change places.
    pub open spec fn flipped(self) -> Order {
        match self {
            Order::RowMajor => Order::ColumnMajor,
            Order::ColumnMajor => Order::RowMajor,
        }
    }
}

/// How a flat buffer is read as a matrix: the shape, and the order of the
/// entries. This is what a kernel is told about the buffer it is handed.
#[derive(Clone, Copy, Debug, PartialEq, Eq, Structural)]
pub struct MatrixLayout {
    pub order: Order,
    pub rows: usize,
    pub cols: usize,
}

impl MatrixLayout {
    /// The number of entries.
    pub open spec fn size(self) -> int {
        self.rows * self.cols
    }

    pub open spec fn spec_is_square(self) -> bool {
        self.rows == self.cols
    }

    /// The place in the buffer of the entry in row `i` and column `j`.
    pub open spec fn offset(self, i: int, j: int) -> int {
        match self.order {
            Order::RowMajor => i * self.cols + j,
            Order::ColumnMajor => j * self.rows + i,
        }
    }

    /// The row of the entry at place `k` of the buffer.
    pub open spec fn row_of(self, k: int) -> int {
        match self.order {
            Order::RowMajor => k / (self.cols as int),
            Order::ColumnMajor => k % (self.rows as int),
        }
    }

    /// The column of the entry at place `k` of the buffer.
    pub open spec fn col_of(self, k: int) -> int {
        match self.order {
            Order::RowMajor => k % (self.cols as int),
            Order::ColumnMajor => k / (self.rows as int),
        }
    }

    /// The layout of the same buffer with rows and columns exchanged.
    pub open spec fn reversed(self) -> MatrixLayout {
        MatrixLayout { order: self.order.flipped(), rows: self.cols, cols: self.rows }
    }

    /// The distance in the buffer between the starts of two neighbouring rows
    /// (row-major) or columns (column-major).
    pub open spec fn leading_dimension(self) -> int {
        match self.order {
            Order::RowMajor => self.cols as int,
            Order::ColumnMajor => self.rows as int,
        }
    }

    /// Which layout a pair of strides stands for, if any. A buffer whose
    /// columns lie one entry apart and whose rows lie `cols` apart is
    /// row-major; one whose rows lie one entry apart and whose columns lie
    /// `rows` apart is column-major. Where both hold, it is read as
    /// column-major.
    pub open spec fn of_strides(rows: usize, cols: usize, row_stride: isize, col_stride: isize)
        -> Result<MatrixLayout, LinalgError> {
        if row_stride == 1 && col_stride == rows {
            Ok(MatrixLayout { order: Order::ColumnMajor, rows, cols })
        } else if col_stride == 1 && row_stride == cols {
            Ok(MatrixLayout { order: Order::RowMajor, rows, cols })
        } else {
            Err(LinalgError::InvalidLayout)
        }
    }

    /// Classifies the strides of a two-dimensional buffer, counted in
    /// entries.
    pub fn from_strides(rows: usize, cols: usize, row_stride: isize, col_stride: isize) -> (r:
        Result<MatrixLayout, LinalgError>)
        ensures
            r == Self::of_strides(rows, cols, row_stride, col_stride),
    {
        if row_stride == 1 && col_stride >= 0 && col_stride as usize == rows {
            Ok(MatrixLayout { order: Order::ColumnMajor, rows, cols })
        } else if col_stride == 1 && row_stride >= 0 && row_stride as usize == cols {
            Ok(MatrixLayout { order: Order::RowMajor, rows, cols })
        } else {
            Err(LinalgError::InvalidLayout)
        }
    }

    #[verifier::when_used_as_spec(spec_is_square)]
    pub fn is_square(self) -> (b: bool)
        ensures
            b == self.spec_is_square(),
    {
        self.rows == self.cols
    }

    /// The layout of the same buffer with rows and columns exchanged.
    pub fn reversed_axes(self) -> (r: MatrixLayout)
        ensures
            r == self.reversed(),
    {
        let order = match self.order {
            Order::RowMajor => Order::ColumnMajor,
            Order::ColumnMajor => Order::RowMajor,
        };
        MatrixLayout { order, rows: self.cols, cols: self.rows }
    }

    /// The leading dimension as a kernel wants it: never less than 1.
    pub fn lda(self) -> (r: usize)
        ensures
            r == if self.leading_dimension() < 1 {
                1
            } else {
                self.leading_dimension()
            },
    {
        let d = match self.order {
            Order::RowMajor => self.cols,
            Order::ColumnMajor => self.rows,
        };
        if d < 1 {
            1
        } else {
            d
        }
    }

    /// The place in the buffer of the entry in row `i` and column `j`.
    pub fn index(self, i: usize, j: usize) -> (k: usize)
        requires
            i < self.rows,
            j < self.cols,
            self.size() <= usize::MAX,
        ensures
            k == self.offset(i as int, j as int),
            k < self.size(),
    {
        proof {
            self.lemma_offset_in_range(i as int, j as int);
            match self.order {
                Order::RowMajor => {
                    lemma_mul_inequality(i as int, self.rows as int - 1, self.cols as int);
                },
                Order::ColumnMajor => {
                    lemma_mul_inequality(j as int, self.cols as int - 1, self.rows as int);
                },
            }
        }
        match self.order {
            Order::RowMajor => i * self.cols + j,
            Order::ColumnMajor => j * self.rows + i,
        }
    }

    /// The row and column of the place that follows the place of row `i` and
    /// column `j` in the buffer.
    pub fn next(self, i: usize, j: usize) -> (r: (usize, usize))
        requires
            i < self.rows,
            j < self.cols,
        ensures
            r.0 == self.row_of(self.offset(i as int, j as int) + 1),
            r.1 == self.col_of(self.offset(i as int, j as int) + 1),
            self.offset(r.0 as int, r.1 as int) == self.offset(i as int, j as int) + 1,
            self.offset(i as int, j as int) + 1 < self.size() ==> r.0 < self.rows && r.1
                < self.cols,
    {
        let ghost rows = self.rows as int;
        let ghost cols = self.cols as int;
        proof {
            match self.order {
                Order::RowMajor => {
                    if j + 1 < cols {
                        lemma_fundamental_div_mod_converse(i * cols + j + 1, cols, i as int, j + 1);
                    } else {
                        assert((i + 1) * cols == i * cols + cols) by (nonlinear_arith);
                        lemma_fundamental_div_mod_converse(i * cols + j + 1, cols, i + 1, 0);
                    }
                },
                Order::ColumnMajor => {
                    if i + 1 < rows {
                        lemma_fundamental_div_mod_converse(j * rows + i + 1, rows, j as int, i + 1);
                    } else {
                        assert((j + 1) * rows == j * rows + rows) by (nonlinear_arith);
                        lemma_fundamental_div_mod_converse(j * rows + i + 1, rows, j + 1, 0);
                    }
                },
            }
        }
        match self.order {
            Order::RowMajor => {
                if j + 1 < self.cols {
                    (i, j + 1)
                } else {
                    proof {
                        assert((i + 1) * cols == i * cols + cols) by (nonlinear_arith);
                        assert((i + 1) * cols < rows * cols ==> i + 1 < rows) by (nonlinear_arith)
                            requires
                                cols > 0,
                        ;
                    }
                    (i + 1, 0)
                }
            },
            Order::ColumnMajor => {
                if i + 1 < self.rows {
                    (i + 1, j)
                } else {
                    proof {
                        assert((j + 1) * rows == j * rows + rows) by (nonlinear_arith);
                        assert((j + 1) * rows < rows * cols ==> j + 1 < cols) by (nonlinear_arith)
                            requires
                                rows > 0,
                        ;
                    }
                    (0, j + 1)
                }
            },
        }
    }

    /// An entry of the matrix has a place inside the buffer.
    pub proof fn lemma_offset_in_range(self, i: int, j: int)
        requires
            0 <= i < self.rows,
            0 <= j < self.cols,
        ensures
            0 <= self.offset(i, j) < self.size(),
            self.row_of(self.offset(i, j)) == i,
            self.col_of(self.offset(i, j)) == j,
    {
        let r = self.rows as int;
        let c = self.cols as int;
        match self.order {
            Order::RowMajor => {
                assert(0 <= i * c && i * c + c <= r * c) by (nonlinear_arith)
                    requires
                        0 <= i < r,
                        0 < c,
                ;
                lemma_fundamental_div_mod_converse(i * c + j, c, i, j);
            },
            Order::ColumnMajor => {
                assert(0 <= j * r && j * r + r <= r * c) by (nonlinear_arith)
                    requires
                        0 <= j < c,
                        0 < r,
                ;
                lemma_fundamental_div_mod_converse(j * r + i, r, j, i);
            },
        }
    }

    /// A place inside the buffer holds exactly one entry of the matrix.
    pub proof fn lemma_index_in_range(self, k: int)
        requires
            0 <= k < self.size(),
        ensures
            0 <= self.row_of(k) < self.rows,
            0 <= self.col_of(k) < self.cols,
            self.offset(self.row_of(k), self.col_of(k)) == k,
    {
        let r = self.rows as int;
        let c = self.cols as int;
        assert(r > 0 && c > 0) by (nonlinear_arith)
            requires
                0 <= k < r * c,
                r >= 0,
                c >= 0,
        ;
        match self.order {
            Order::RowMajor => {
                lemma_fundamental_div_mod(k, c);
                let q = k / c;
                let m = k % c;
                assert(0 <= m < c);
                assert(c * q == q * c) by (nonlinear_arith);
                assert(0 <= q < r) by (nonlinear_arith)
                    requires
                        0 <= q * c + m < r * c,
                        0 <= m < c,
                        0 < c,
                ;
            },
            Order::ColumnMajor => {
                lemma_fundamental_div_mod(k, r);
                let q = k / r;
                let m = k % r;
                assert(0 <= m < r);
                assert(r * q == q * r) by (nonlinear_arith);
                assert(0 <= q < c) by (nonlinear_arith)
                    requires
                        0 <= q * r + m < r * c,
                        0 <= m < r,
                        0 < r,
                ;
            },
        }
    }

    /// Exchanging rows and columns leaves every entry at its place in the
    /// buffer: what was in row `i` and column `j` is in row `j` and column `i`.
    pub proof fn lemma_reversed_offset(self, i: int, j: int)
        ensures
            self.reversed().offset(j, i) == self.offset(i, j),
            self.reversed().size() == self.size(),
            self.reversed().reversed() == self,
    {
        assert(self.rows * self.cols == self.cols * self.rows) by (nonlinear_arith);
    }
}

} // verus!
