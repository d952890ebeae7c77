use crate::error::LinalgError;
use crate::layout::{MatrixLayout, Order, UPLO};
use crate::scalar::{is_conj, is_zero, Scalar};
use vstd::prelude::*;

verus! {

/// A dense matrix as mathematics sees it: a layout, and the buffer that the
/// layout is read from.
pub struct Dense<A> {
    pub layout: MatrixLayout,
    pub buffer: Seq<A>,
}

impl<A> Dense<A> {
    /// The buffer holds as many entries as the shape says.
    pub open spec fn wf(self) -> bool {
        self.buffer.len() == self.layout.size()
    }

    /// The entry in row `i` and column `j`.
    pub open spec fn at(self, i: int, j: int) -> A {
        self.buffer[self.layout.offset(i, j)]
    }

    /// Whether `i` and `j` name an entry.
    pub open spec fn has(self, i: int, j: int) -> bool {
        0 <= i < self.layout.rows && 0 <= j < self.layout.cols
    }

    /// The entries on the diagonal, from the top left.
    pub open spec fn diag(self) -> Seq<A> {
        Seq::new(
            vstd::math::min(self.layout.rows as int, self.layout.cols as int) as nat,
            |i: int| self.at(i, i),
        )
    }

    /// The matrix without rows or columns that remains where a matrix has been
    /// taken away.
    pub open spec fn hollow(order: Order) -> Dense<A> {
        Dense { layout: MatrixLayout { order, rows: 0, cols: 0 }, buffer: Seq::empty() }
    }

    /// The same buffer with rows and columns exchanged.
    pub open spec fn reversed_axes(self) -> Dense<A> {
        Dense { layout: self.layout.reversed(), buffer: self.buffer }
    }

    /// A matrix is its layout and its entries: two matrices of one layout
    /// that agree in every row and column are the same.
    pub proof fn lemma_entries_determine(self, other: Dense<A>)
        requires
            self.wf(),
            other.wf(),
            self.layout == other.layout,
            forall|i: int, j: int| self.has(i, j) ==> self.at(i, j) == other.at(i, j),
        ensures
            self == other,
    {
        assert forall|k: int| 0 <= k < self.buffer.len() implies self.buffer[k]
            == other.buffer[k] by {
            self.layout.lemma_index_in_range(k);
            let i = self.layout.row_of(k);
            let j = self.layout.col_of(k);
            assert(self.has(i, j));
            assert(self.at(i, j) == other.at(i, j));
        }
        assert(self.buffer =~= other.buffer);
    }
}

impl<A: Scalar> Dense<A> {
    /// Whether this matrix is a conjugate transpose of `m`: the entry in row
    /// `i` and column `j` is the conjugate of what `m` has in row `j` and
    /// column `i`, and the order of the buffer has turned with the axes.
    pub open spec fn is_conj_transpose_of(self, m: Dense<A>) -> bool {
        &&& self.layout == m.layout.reversed()
        &&& self.wf()
        &&& forall|i: int, j: int|
            self.has(i, j) ==> is_conj(m.at(j, i), #[trigger] self.at(i, j))
    }

    /// Whether this matrix is the triangle `uplo` of `m`, with zeros in the
    /// other triangle.
    pub open spec fn is_triangle_of(self, m: Dense<A>, uplo: UPLO) -> bool {
        &&& self.layout == m.layout
        &&& self.wf()
        &&& forall|i: int, j: int|
            self.has(i, j) ==> if uplo.keeps(i, j) {
                #[trigger] self.at(i, j) == m.at(i, j)
            } else {
                is_zero(self.at(i, j))
            }
    }

    /// Whether this matrix is the Hermitian matrix that `m` gives with its
    /// triangle `uplo`: that triangle is kept, and each entry of the other
    /// triangle is the conjugate of its mirror image in `m`.
    pub open spec fn is_hermitian_of(self, m: Dense<A>, uplo: UPLO) -> bool {
        &&& self.layout == m.layout
        &&& self.wf()
        &&& forall|i: int, j: int|
            self.has(i, j) ==> if uplo.keeps(i, j) {
                #[trigger] self.at(i, j) == m.at(i, j)
            } else {
                is_conj(m.at(j, i), self.at(i, j))
            }
    }
}

/// A dense matrix: a buffer of entries, row-major or column-major, that holds
/// exactly the entries of its shape.
#[derive(Debug)]
pub struct Matrix<A> {
    layout: MatrixLayout,
    data: Vec<A>,
}

impl<A> View for Matrix<A> {
    type V = Dense<A>;

    closed spec fn view(&self) -> Dense<A> {
        Dense { layout: self.layout, buffer: self.data@ }
    }
}

impl<A> Matrix<A> {
    #[verifier::type_invariant]
    spec fn fits(self) -> bool {
        self.data@.len() == self.layout.size()
    }

    /// Reads `data` as a matrix of the given layout. The buffer must hold
    /// exactly the entries of the shape.
    pub fn from_vec(layout: MatrixLayout, data: Vec<A>) -> (r: Result<Matrix<A>, LinalgError>)
        ensures
            data@.len() == layout.size() ==> r is Ok && r->Ok_0@ == (Dense {
                layout,
                buffer: data@,
            }),
            data@.len() != layout.size() ==> r == Err::<Matrix<A>, _>(LinalgError::InvalidLayout),
    {
        let len = data.len();
        match layout.rows.checked_mul(layout.cols) {
            Some(n) => {
                if n == len {
                    Ok(Matrix { layout, data })
                } else {
                    Err(LinalgError::InvalidLayout)
                }
            },
            None => Err(LinalgError::InvalidLayout),
        }
    }

    /// Reads `data` as the matrix with the given shape and strides, the
    /// strides counted in entries.
    pub fn from_strided(
        rows: usize,
        cols: usize,
        row_stride: isize,
        col_stride: isize,
        data: Vec<A>,
    ) -> (r: Result<Matrix<A>, LinalgError>)
        ensures
            match MatrixLayout::of_strides(rows, cols, row_stride, col_stride) {
                Ok(layout) => {
                    &&& data@.len() == layout.size() ==> r is Ok && r->Ok_0@ == (Dense {
                        layout,
                        buffer: data@,
                    })
                    &&& data@.len() != layout.size() ==> r == Err::<Matrix<A>, _>(
                        LinalgError::InvalidLayout,
                    )
                },
                Err(_) => r == Err::<Matrix<A>, _>(LinalgError::InvalidLayout),
            },
    {
        match MatrixLayout::from_strides(rows, cols, row_stride, col_stride) {
            Ok(layout) => Matrix::from_vec(layout, data),
            Err(e) => Err(e),
        }
    }

    /// The layout. Every matrix is well formed, and this is where a caller
    /// learns it.
    pub fn layout(&self) -> (r: MatrixLayout)
        ensures
            r == self@.layout,
            self@.wf(),
    {
        proof {
            use_type_invariant(self);
        }
        self.layout
    }

    pub fn rows(&self) -> (r: usize)
        ensures
            r == self@.layout.rows,
    {
        self.layout.rows
    }

    pub fn cols(&self) -> (r: usize)
        ensures
            r == self@.layout.cols,
    {
        self.layout.cols
    }

    pub fn is_square(&self) -> (b: bool)
        ensures
            b == self@.layout.is_square(),
    {
        self.layout.is_square()
    }

    /// The layout, if the matrix is square.
    pub fn square_layout(&self) -> (r: Result<MatrixLayout, LinalgError>)
        ensures
            r == square_layout_of(self@.layout),
    {
        if self.layout.is_square() {
            Ok(self.layout)
        } else {
            Err(LinalgError::NotSquare { rows: self.layout.rows, cols: self.layout.cols })
        }
    }

    /// Takes the matrix out and leaves a matrix without rows or columns.
    pub fn take(&mut self) -> (r: Matrix<A>)
        ensures
            r@ == old(self)@,
            final(self)@ == Dense::<A>::hollow(old(self)@.layout.order),
    {
        let mut r = Matrix {
            layout: MatrixLayout { order: self.layout.order, rows: 0, cols: 0 },
            data: Vec::new(),
        };
        core::mem::swap(self, &mut r);
        r
    }

    /// The buffer, for reading.
    pub fn as_vec(&self) -> (r: &Vec<A>)
        ensures
            r@ == self@.buffer,
    {
        &self.data
    }

    /// The buffer.
    pub fn into_vec(self) -> (r: Vec<A>)
        ensures
            r@ == self@.buffer,
    {
        self.data
    }

    /// The same buffer with rows and columns exchanged: nothing is moved.
    pub fn reversed_axes(self) -> (r: Matrix<A>)
        ensures
            r@ == self@.reversed_axes(),
    {
        proof {
            use_type_invariant(&self);
            self.layout.lemma_reversed_offset(0, 0);
        }
        Matrix { layout: self.layout.reversed_axes(), data: self.data }
    }
}

impl<A: Copy> Matrix<A> {
    /// The entry in row `i` and column `j`, if there is one.
    pub fn get(&self, i: usize, j: usize) -> (r: Option<A>)
        ensures
            r == if self@.has(i as int, j as int) {
                Some(self@.at(i as int, j as int))
            } else {
                None
            },
    {
        proof {
            use_type_invariant(self);
        }
        if i < self.layout.rows && j < self.layout.cols {
            let len = self.data.len();
            let k = self.layout.index(i, j);
            Some(self.data[k])
        } else {
            None
        }
    }

    /// A copy of the matrix in a buffer of its own.
    pub fn replicate(&self) -> (r: Matrix<A>)
        ensures
            r@ == self@,
    {
        proof {
            use_type_invariant(self);
        }
        Matrix { layout: self.layout, data: replicate(&self.data) }
    }

    /// The entries on the diagonal, from the top left.
    pub fn diag(&self) -> (r: Vec<A>)
        ensures
            r@ == self@.diag(),
    {
        proof {
            use_type_invariant(self);
        }
        let len = self.data.len();
        let n = if self.layout.rows < self.layout.cols {
            self.layout.rows
        } else {
            self.layout.cols
        };
        let mut r: Vec<A> = Vec::new();
        let mut i: usize = 0;
        while i < n
            invariant
                i <= n,
                n <= self.layout.rows,
                n <= self.layout.cols,
                self.data@.len() == self.layout.size(),
                self.data@.len() == len,
                r@.len() == i,
                forall|m: int| 0 <= m < i ==> r@[m] == self@.at(m, m),
            decreases n - i,
        {
            let k = self.layout.index(i, i);
            r.push(self.data[k]);
            i += 1;
        }
        assert(r@ =~= self@.diag());
        r
    }
}

/// A copy of a buffer.
pub fn replicate<A: Copy>(v: &Vec<A>) -> (r: Vec<A>)
    ensures
        r@ == v@,
{
    let n = v.len();
    let mut r: Vec<A> = Vec::with_capacity(n);
    let mut i: usize = 0;
    while i < n
        invariant
            i <= n,
            n == v@.len(),
            r@.len() == i,
            forall|m: int| 0 <= m < i ==> r@[m] == v@[m],
        decreases n - i,
    {
        r.push(v[i]);
        i += 1;
    }
    assert(r@ =~= v@);
    r
}

impl<A: Scalar> Matrix<A> {
    /// The conjugate transpose. The buffer stays where it is: its entries are
    /// conjugated in place, and rows and columns change places.
    pub fn conj_transpose(self) -> (r: Matrix<A>)
        ensures
            r@.is_conj_transpose_of(self@),
    {
        proof {
            use_type_invariant(&self);
        }
        let ghost before = self@;
        let Matrix { layout, data } = self;
        let mut data = data;
        let n = data.len();
        let mut k: usize = 0;
        while k < n
            invariant
                k <= n,
                data@.len() == n,
                n == before.buffer.len(),
                forall|m: int| 0 <= m < k ==> is_conj(before.buffer[m], #[trigger] data@[m]),
                forall|m: int| k <= m < n ==> data@[m] == before.buffer[m],
            decreases n - k,
        {
            let x = data[k];
            data[k] = x.conj();
            k += 1;
        }
        let turned = layout.reversed_axes();
        proof {
            layout.lemma_reversed_offset(0, 0);
        }
        let r = Matrix { layout: turned, data };
        proof {
            assert forall|i: int, j: int| r@.has(i, j) implies is_conj(
                before.at(j, i),
                #[trigger] r@.at(i, j),
            ) by {
                turned.lemma_offset_in_range(i, j);
                layout.lemma_reversed_offset(j, i);
            }
        }
        r
    }

    /// Keeps the triangle `uplo` and writes zeros over the other triangle.
    pub fn into_triangular(self, uplo: UPLO) -> (r: Matrix<A>)
        ensures
            r@.is_triangle_of(self@, uplo),
    {
        proof {
            use_type_invariant(&self);
        }
        let ghost before = self@;
        let Matrix { layout, data } = self;
        let mut data = data;
        let n = data.len();
        let zero = A::zero();
        let mut k: usize = 0;
        let mut i: usize = 0;
        let mut j: usize = 0;
        proof {
            assert(n > 0 ==> layout.rows > 0 && layout.cols > 0) by (nonlinear_arith)
                requires
                    n == layout.rows * layout.cols,
            ;
        }
        while k < n
            invariant
                k <= n,
                data@.len() == n,
                n == layout.size(),
                before.buffer.len() == n,
                is_zero(zero),
                k == layout.offset(i as int, j as int),
                k < n ==> i < layout.rows && j < layout.cols,
                forall|m: int|
                    0 <= m < k ==> if uplo.keeps(layout.row_of(m), layout.col_of(m)) {
                        #[trigger] data@[m] == before.buffer[m]
                    } else {
                        is_zero(data@[m])
                    },
                forall|m: int| k <= m < n ==> data@[m] == before.buffer[m],
            decreases n - k,
        {
            proof {
                layout.lemma_offset_in_range(i as int, j as int);
            }
            if !uplo.contains(i, j) {
                data[k] = zero;
            }
            let (ni, nj) = layout.next(i, j);
            i = ni;
            j = nj;
            k += 1;
        }
        let r = Matrix { layout, data };
        proof {
            assert forall|i: int, j: int| r@.has(i, j) implies if uplo.keeps(i, j) {
                #[trigger] r@.at(i, j) == before.at(i, j)
            } else {
                is_zero(r@.at(i, j))
            } by {
                layout.lemma_offset_in_range(i, j);
            }
        }
        r
    }

    /// Fills the triangle opposite to `uplo` with the conjugates of the
    /// mirrored entries, so that a square matrix becomes Hermitian. A matrix
    /// that is not square is left as it is.
    pub fn into_hermitian(self, uplo: UPLO) -> (r: Matrix<A>)
        ensures
            self@.layout.is_square() ==> r@.is_hermitian_of(self@, uplo),
            !self@.layout.is_square() ==> r@ == self@,
    {
        proof {
            use_type_invariant(&self);
        }
        if !self.layout.is_square() {
            return self;
        }
        let ghost before = self@;
        let Matrix { layout, data } = self;
        let mut data = data;
        let n = data.len();
        let mut k: usize = 0;
        let mut i: usize = 0;
        let mut j: usize = 0;
        proof {
            assert(n > 0 ==> layout.rows > 0 && layout.cols > 0) by (nonlinear_arith)
                requires
                    n == layout.rows * layout.cols,
            ;
        }
        while k < n
            invariant
                k <= n,
                data@.len() == n,
                n == layout.size(),
                layout.is_square(),
                before.buffer.len() == n,
                k == layout.offset(i as int, j as int),
                k < n ==> i < layout.rows && j < layout.cols,
                forall|m: int|
                    0 <= m < k ==> if uplo.keeps(layout.row_of(m), layout.col_of(m)) {
                        #[trigger] data@[m] == before.buffer[m]
                    } else {
                        is_conj(
                            before.buffer[layout.offset(layout.col_of(m), layout.row_of(m))],
                            data@[m],
                        )
                    },
                forall|m: int| k <= m < n ==> data@[m] == before.buffer[m],
            decreases n - k,
        {
            proof {
                layout.lemma_offset_in_range(i as int, j as int);
            }
            if !uplo.contains(i, j) {
                let mirror = layout.index(j, i);
                proof {
                    layout.lemma_offset_in_range(j as int, i as int);
                    assert(uplo.keeps(j as int, i as int));
                    assert(data@[mirror as int] == before.buffer[mirror as int]);
                }
                let x = data[mirror];
                data[k] = x.conj();
            }
            let (ni, nj) = layout.next(i, j);
            i = ni;
            j = nj;
            k += 1;
        }
        let r = Matrix { layout, data };
        proof {
            assert forall|i: int, j: int| r@.has(i, j) implies if uplo.keeps(i, j) {
                #[trigger] r@.at(i, j) == before.at(i, j)
            } else {
                is_conj(before.at(j, i), r@.at(i, j))
            } by {
                layout.lemma_offset_in_range(i, j);
            }
        }
        r
    }
}

/// The layout of a square matrix, or the error that names the shape of one
/// that is not square.
pub open spec fn square_layout_of(layout: MatrixLayout) -> Result<MatrixLayout, LinalgError> {
    if layout.is_square() {
        Ok(layout)
    } else {
        Err(LinalgError::NotSquare { rows: layout.rows, cols: layout.cols })
    }
}

} // verus!
