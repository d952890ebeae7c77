use crate::error::{check_info, LinalgError};
use crate::layout::MatrixLayout;
pub use crate::layout::UPLO;
use crate::matrix::{replicate, Dense, Matrix};
use crate::scalar::{
    factored, inverted, is_abs_sqr, is_exp, is_ln, is_real_sum, is_real_zero, solved, Scalar,
};
use vstd::prelude::*;

verus! {

/// The error that names the shape of a matrix that is not square.
pub open spec fn not_square(layout: MatrixLayout) -> LinalgError {
    LinalgError::NotSquare { rows: layout.rows, cols: layout.cols }
}

/// A result with the matrix in it replaced by its model.
pub open spec fn model<A>(r: Result<Matrix<A>, LinalgError>) -> Result<Dense<A>, LinalgError> {
    match r {
        Ok(m) => Ok(m@),
        Err(e) => Err(e),
    }
}

/// What becomes of the buffer `out` and the status code `info` that the
/// factorization kernel gave back for a matrix of the given layout.
///
/// A buffer that no longer fits the layout is refused. A status code other
/// than 0 is reported as it came. Otherwise the result is the triangle `uplo`
/// of the buffer, with zeros in the other triangle.
pub open spec fn factor_outcome<A: Scalar>(
    layout: MatrixLayout,
    uplo: UPLO,
    out: Seq<A>,
    info: i32,
    r: Result<Dense<A>, LinalgError>,
) -> bool {
    if out.len() != layout.size() {
        r == Err::<Dense<A>, _>(LinalgError::InvalidLayout)
    } else if info != 0 {
        r == Err::<Dense<A>, _>(LinalgError::NotPositiveDefinite { leading_minor_index: info })
    } else {
        r is Ok && r->Ok_0.is_triangle_of(Dense { layout, buffer: out }, uplo)
    }
}

/// Whether `r` may be the result of factorizing `a` in its triangle `uplo`.
///
/// A matrix that is not square gives `NotSquare`, whatever the kernel would
/// say of it. A square matrix goes to the kernel as it is, and the result is
/// what `factor_outcome` makes of the kernel's answer.
pub open spec fn factorizes<A: Scalar>(a: Dense<A>, uplo: UPLO, r: Result<Dense<A>, LinalgError>)
    -> bool {
    if !a.layout.is_square() {
        r == Err::<Dense<A>, _>(not_square(a.layout))
    } else {
        exists|out: Seq<A>, info: i32| #[trigger]
            factored(a.layout, uplo, a.buffer, out, info) && factor_outcome(
                a.layout,
                uplo,
                out,
                info,
                r,
            )
    }
}

/// What an in-place factorization makes of the buffer `out` and the status
/// code `info` that the kernel gave back: its result `r`, and the matrix
/// `after` that it leaves.
///
/// On success `after` is the factor. After a failure that the kernel
/// reported, `after` holds what the kernel left behind; it is of no use as a
/// factor. Where the kernel gave back a buffer of another length, nothing is
/// left.
pub open spec fn in_place_outcome<A: Scalar>(
    layout: MatrixLayout,
    uplo: UPLO,
    out: Seq<A>,
    info: i32,
    r: Result<(), LinalgError>,
    after: Dense<A>,
) -> bool {
    if out.len() != layout.size() {
        r == Err::<(), _>(LinalgError::InvalidLayout) && after == Dense::<A>::hollow(layout.order)
    } else if info != 0 {
        r == Err::<(), _>(LinalgError::NotPositiveDefinite { leading_minor_index: info })
            && after == (Dense { layout, buffer: out })
    } else {
        r == Ok::<(), LinalgError>(()) && after.is_triangle_of(Dense { layout, buffer: out }, uplo)
    }
}

/// Whether factorizing `a` in place may end with the result `r` and leave
/// `after`. A matrix that is not square is left untouched; a square one goes
/// to the kernel, and `in_place_outcome` says what follows.
pub open spec fn factorizes_in_place<A: Scalar>(
    a: Dense<A>,
    uplo: UPLO,
    after: Dense<A>,
    r: Result<(), LinalgError>,
) -> bool {
    if !a.layout.is_square() {
        r == Err::<(), _>(not_square(a.layout)) && after == a
    } else {
        exists|out: Seq<A>, info: i32| #[trigger]
            factored(a.layout, uplo, a.buffer, out, info) && in_place_outcome(
                a.layout,
                uplo,
                out,
                info,
                r,
                after,
            )
    }
}

/// Whether `r` may be the result of solving `A x = b` with the factor of `A`
/// in the triangle `uplo` of `factor`.
pub open spec fn solves<A: Scalar>(
    factor: Dense<A>,
    uplo: UPLO,
    b: Seq<A>,
    r: Result<Seq<A>, LinalgError>,
) -> bool {
    if !factor.layout.is_square() {
        r == Err::<Seq<A>, _>(not_square(factor.layout))
    } else if b.len() != factor.layout.rows {
        r == Err::<Seq<A>, _>(LinalgError::InvalidLayout)
    } else {
        r is Ok && solved(factor.layout, uplo, factor.buffer, b, r->Ok_0)
    }
}

/// What becomes of the buffer `out` that the inverting kernel gave back for a
/// factor of the given layout: the kernel's triangle of the inverse, mirrored
/// into the full Hermitian matrix. A layout that is not square, and a buffer
/// that no longer fits the layout, are refused.
pub open spec fn inverse_outcome<A: Scalar>(
    layout: MatrixLayout,
    uplo: UPLO,
    out: Seq<A>,
    r: Result<Dense<A>, LinalgError>,
) -> bool {
    if !layout.is_square() {
        r == Err::<Dense<A>, _>(not_square(layout))
    } else if out.len() != layout.size() {
        r == Err::<Dense<A>, _>(LinalgError::InvalidLayout)
    } else {
        r is Ok && r->Ok_0.is_hermitian_of(Dense { layout, buffer: out }, uplo)
    }
}

/// Whether `r` may be the result of inverting `A` with the factor of `A` in
/// the triangle `uplo` of `factor`. A factor that is not square gives
/// `NotSquare`; a square one goes to the kernel, and `inverse_outcome` says
/// what follows.
pub open spec fn inverts<A: Scalar>(factor: Dense<A>, uplo: UPLO, r: Result<Dense<A>, LinalgError>)
    -> bool {
    if !factor.layout.is_square() {
        r == Err::<Dense<A>, _>(not_square(factor.layout))
    } else {
        exists|out: Seq<A>| #[trigger]
            inverted(factor.layout, uplo, factor.buffer, out) && inverse_outcome(
                factor.layout,
                uplo,
                out,
                r,
            )
    }
}

/// Whether `det` may be the determinant that belongs to a factor with the
/// diagonal `diag`: the exponential of the sum of the logarithms of the
/// squared magnitudes of the diagonal entries. The sum starts at zero and
/// takes the entries in their order; no product of entries is formed.
pub open spec fn is_determinant<A: Scalar>(diag: Seq<A>, det: A::Real) -> bool {
    exists|squares: Seq<A::Real>, logs: Seq<A::Real>, sums: Seq<A::Real>|
        #![trigger is_log_sum::<A>(diag, squares, logs, sums)]
        is_log_sum::<A>(diag, squares, logs, sums) && is_exp::<A>(sums.last(), det)
}

/// Whether `sums` holds the running sums of `logs`, which holds the
/// logarithms of `squares`, which holds the squared magnitudes of `diag`.
pub open spec fn is_log_sum<A: Scalar>(
    diag: Seq<A>,
    squares: Seq<A::Real>,
    logs: Seq<A::Real>,
    sums: Seq<A::Real>,
) -> bool {
    &&& squares.len() == diag.len()
    &&& logs.len() == diag.len()
    &&& sums.len() == diag.len() + 1
    &&& is_real_zero::<A>(sums[0])
    &&& forall|i: int|
        0 <= i < diag.len() ==> {
            &&& #[trigger] is_abs_sqr::<A>(diag[i], squares[i])
            &&& is_ln::<A>(squares[i], logs[i])
            &&& is_real_sum::<A>(sums[i], logs[i], sums[i + 1])
        }
}

/// Whether `r` may be the result of solving `A x = b` for the matrix `a`: it
/// is factorized in its upper triangle, and the factor solves.
pub open spec fn solves_system<A: Scalar>(a: Dense<A>, b: Seq<A>, r: Result<Seq<A>, LinalgError>)
    -> bool {
    exists|f: Result<Dense<A>, LinalgError>| #[trigger]
        factorizes(a, UPLO::Upper, f) && match f {
            Ok(m) => solves(m, UPLO::Upper, b, r),
            Err(e) => r == Err::<Seq<A>, _>(e),
        }
}

/// Whether `r` may be the result of inverting the matrix `a`: it is
/// factorized in its upper triangle, and the factor is inverted.
pub open spec fn inverts_matrix<A: Scalar>(a: Dense<A>, r: Result<Dense<A>, LinalgError>) -> bool {
    exists|f: Result<Dense<A>, LinalgError>| #[trigger]
        factorizes(a, UPLO::Upper, f) && match f {
            Ok(m) => inverts(m, UPLO::Upper, r),
            Err(e) => r == Err::<Dense<A>, _>(e),
        }
}

/// Whether `r` may be the determinant of the matrix `a`: it is factorized in
/// its upper triangle, and the determinant is read off the diagonal of the
/// factor.
pub open spec fn is_determinant_of<A: Scalar>(a: Dense<A>, r: Result<A::Real, LinalgError>)
    -> bool {
    exists|f: Result<Dense<A>, LinalgError>| #[trigger]
        factorizes(a, UPLO::Upper, f) && match f {
            Ok(m) => r is Ok && is_determinant::<A>(m.diag(), r->Ok_0),
            Err(e) => r == Err::<A::Real, _>(e),
        }
}

/// The view of a solution.
pub open spec fn solution_view<A>(r: Result<Vec<A>, LinalgError>) -> Result<Seq<A>, LinalgError> {
    match r {
        Ok(x) => Ok(x@),
        Err(e) => Err(e),
    }
}

/// Whether `l` is the lower factor that belongs to `factor` stored in the
/// triangle `uplo`: the factor itself where it is stored as `L`, and a
/// conjugate transpose of it where it is stored as `U`.
pub open spec fn is_lower_of<A: Scalar>(l: Dense<A>, factor: Dense<A>, uplo: UPLO) -> bool {
    match uplo {
        UPLO::Lower => l == factor,
        UPLO::Upper => l.is_conj_transpose_of(factor),
    }
}

/// Whether `u` is the upper factor that belongs to `factor` stored in the
/// triangle `uplo`: the factor itself where it is stored as `U`, and a
/// conjugate transpose of it where it is stored as `L`.
pub open spec fn is_upper_of<A: Scalar>(u: Dense<A>, factor: Dense<A>, uplo: UPLO) -> bool {
    match uplo {
        UPLO::Upper => u == factor,
        UPLO::Lower => u.is_conj_transpose_of(factor),
    }
}

/// The Cholesky factorization of a Hermitian (or real symmetric) positive
/// definite matrix: the factor, and the triangle in which it lies.
///
/// With `UPLO::Lower` the factor is `L` of `A = L * L^H`, with `UPLO::Upper`
/// it is `U` of `A = U^H * U`. Only that triangle of `factor` means anything.
#[derive(Debug)]
pub struct CholeskyFactorized<A> {
    pub factor: Matrix<A>,
    pub uplo: UPLO,
}

/// The model of a factorization result: the factor, or the error.
pub open spec fn factor_model<A>(r: Result<CholeskyFactorized<A>, LinalgError>) -> Result<
    Dense<A>,
    LinalgError,
> {
    match r {
        Ok(f) => Ok(f.factor@),
        Err(e) => Err(e),
    }
}

impl<A: Scalar> CholeskyFactorized<A> {
    /// `L` of the decomposition `A = L * L^H`.
    ///
    /// Where the factor is stored as `L`, it is handed over as it is; where it
    /// is stored as `U`, the conjugate transpose is formed in its buffer.
    pub fn into_lower(self) -> (r: Matrix<A>)
        ensures
            is_lower_of(r@, self.factor@, self.uplo),
    {
        match self.uplo {
            UPLO::Lower => self.factor,
            UPLO::Upper => self.factor.conj_transpose(),
        }
    }

    /// `U` of the decomposition `A = U^H * U`.
    ///
    /// Where the factor is stored as `U`, it is handed over as it is; where it
    /// is stored as `L`, the conjugate transpose is formed in its buffer.
    pub fn into_upper(self) -> (r: Matrix<A>)
        ensures
            is_upper_of(r@, self.factor@, self.uplo),
    {
        match self.uplo {
            UPLO::Lower => self.factor.conj_transpose(),
            UPLO::Upper => self.factor,
        }
    }
}

/// Makes of the answer of the factorization kernel what an in-place
/// factorization returns and leaves: the status, and the matrix.
pub fn after_factorization<A: Scalar>(
    layout: MatrixLayout,
    uplo: UPLO,
    out: Vec<A>,
    info: i32,
) -> (r: (Result<(), LinalgError>, Matrix<A>))
    ensures
        in_place_outcome(layout, uplo, out@, info, r.0, r.1@),
{
    match Matrix::from_vec(layout, out) {
        Err(e) => (
            Err(e),
            Matrix::from_vec(
                MatrixLayout { order: layout.order, rows: 0, cols: 0 },
                Vec::new(),
            ).unwrap(),
        ),
        Ok(m) => match check_info(info) {
            Err(e) => (Err(e), m),
            Ok(()) => (Ok(()), m.into_triangular(uplo)),
        },
    }
}

/// Makes of the answer of the inverting kernel the inverse: the triangle
/// `uplo` of the buffer, mirrored into the full Hermitian matrix.
pub fn after_inversion<A: Scalar>(layout: MatrixLayout, uplo: UPLO, out: Vec<A>) -> (r: Result<
    Matrix<A>,
    LinalgError,
>)
    ensures
        inverse_outcome(layout, uplo, out@, model(r)),
{
    if !layout.is_square() {
        return Err(LinalgError::NotSquare { rows: layout.rows, cols: layout.cols });
    }
    match Matrix::from_vec(layout, out) {
        Ok(m) => Ok(m.into_hermitian(uplo)),
        Err(e) => Err(e),
    }
}

/// Cholesky decomposition of a matrix that is only read.
pub trait Cholesky {
    type Output;

    /// Computes the Cholesky decomposition of the Hermitian (or real
    /// symmetric) positive definite matrix, from its triangle `uplo`, and
    /// returns `U` for `UPLO::Upper` and `L` for `UPLO::Lower`.
    fn cholesky(&self, uplo: UPLO) -> Result<Self::Output, LinalgError>;
}

/// Cholesky decomposition of a matrix that is given away.
pub trait CholeskyInto {
    type Output;

    /// Computes the Cholesky decomposition in the buffer of the matrix.
    fn cholesky_into(self, uplo: UPLO) -> Result<Self::Output, LinalgError>;
}

/// Cholesky decomposition of a matrix in place.
pub trait CholeskyMut {
    /// Computes the Cholesky decomposition, writes the factor over the
    /// matrix and hands the matrix back.
    fn cholesky_mut(&mut self, uplo: UPLO) -> Result<&mut Self, LinalgError>;
}

impl<A: Scalar> CholeskyMut for Matrix<A> {
    fn cholesky_mut(&mut self, uplo: UPLO) -> (r: Result<&mut Self, LinalgError>)
        ensures
            match r {
                Ok(m) => factorizes_in_place(old(self)@, uplo, m@, Ok(())) && *final(self)
                    == *final(m),
                Err(e) => factorizes_in_place(old(self)@, uplo, final(self)@, Err(e)),
            },
    {
        let layout = match self.square_layout() {
            Ok(layout) => layout,
            Err(e) => {
                return Err(e);
            },
        };
        let a = self.take();
        let _ = a.layout();
        let data = a.into_vec();
        let ghost before = data;
        let (out, info) = A::cholesky(layout, uplo, data);
        proof {
            assert(call_ensures(A::cholesky, (layout, uplo, before), (out, info)));
            assert(factored(layout, uplo, before@, out@, info));
        }
        let (done, left) = after_factorization(layout, uplo, out, info);
        *self = left;
        match done {
            Ok(()) => Ok(self),
            Err(e) => Err(e),
        }
    }
}

impl<A: Scalar> CholeskyInto for Matrix<A> {
    type Output = Matrix<A>;

    fn cholesky_into(self, uplo: UPLO) -> (r: Result<Matrix<A>, LinalgError>)
        ensures
            factorizes(self@, uplo, model(r)),
    {
        let mut a = self;
        match a.cholesky_mut(uplo) {
            Ok(_) => Ok(a),
            Err(e) => Err(e),
        }
    }
}

impl<A: Scalar> Cholesky for Matrix<A> {
    type Output = Matrix<A>;

    fn cholesky(&self, uplo: UPLO) -> (r: Result<Matrix<A>, LinalgError>)
        ensures
            factorizes(self@, uplo, model(r)),
    {
        let a = self.replicate();
        a.cholesky_into(uplo)
    }
}

/// Cholesky factorization of a matrix that is only read.
pub trait CholeskyFactorize<A> {
    /// Computes the Cholesky decomposition from the triangle `uplo` and
    /// returns the factorization, which remembers `uplo`.
    fn factorizec(&self, uplo: UPLO) -> Result<CholeskyFactorized<A>, LinalgError>;
}

/// Cholesky factorization of a matrix that is given away.
pub trait CholeskyFactorizeInto<A> {
    /// Computes the Cholesky decomposition in the buffer of the matrix and
    /// returns the factorization, which remembers `uplo`.
    fn factorizec_into(self, uplo: UPLO) -> Result<CholeskyFactorized<A>, LinalgError>;
}

impl<A: Scalar> CholeskyFactorizeInto<A> for Matrix<A> {
    fn factorizec_into(self, uplo: UPLO) -> (r: Result<CholeskyFactorized<A>, LinalgError>)
        ensures
            factorizes(self@, uplo, factor_model(r)),
            r is Ok ==> r->Ok_0.uplo == uplo,
    {
        match self.cholesky_into(uplo) {
            Ok(factor) => Ok(CholeskyFactorized { factor, uplo }),
            Err(e) => Err(e),
        }
    }
}

impl<A: Scalar> CholeskyFactorize<A> for Matrix<A> {
    fn factorizec(&self, uplo: UPLO) -> (r: Result<CholeskyFactorized<A>, LinalgError>)
        ensures
            factorizes(self@, uplo, factor_model(r)),
            r is Ok ==> r->Ok_0.uplo == uplo,
    {
        match self.cholesky(uplo) {
            Ok(factor) => Ok(CholeskyFactorized { factor, uplo }),
            Err(e) => Err(e),
        }
    }
}

/// Solving systems of linear equations with a Hermitian (or real symmetric)
/// positive definite coefficient matrix.
pub trait CholeskySolve<A> {
    /// Solves `A * x = b`, where `A` is `self`, and returns `x` in a buffer
    /// of its own.
    fn solvec(&self, b: &Vec<A>) -> Result<Vec<A>, LinalgError>;

    /// Solves `A * x = b`, where `A` is `self`, and returns `x` in the buffer
    /// of `b`.
    fn solvec_into(&self, b: Vec<A>) -> Result<Vec<A>, LinalgError>;

    /// Solves `A * x = b`, where `A` is `self`, writes `x` over `b` and
    /// hands `b` back.
    fn solvec_mut<'a>(&self, b: &'a mut Vec<A>) -> Result<&'a mut Vec<A>, LinalgError>;
}

impl<A: Scalar> CholeskySolve<A> for CholeskyFactorized<A> {
    fn solvec(&self, b: &Vec<A>) -> (r: Result<Vec<A>, LinalgError>)
        ensures
            solves(self.factor@, self.uplo, b@, solution_view(r)),
    {
        let mut b = replicate(b);
        match self.solvec_mut(&mut b) {
            Ok(_) => Ok(b),
            Err(e) => Err(e),
        }
    }

    fn solvec_into(&self, b: Vec<A>) -> (r: Result<Vec<A>, LinalgError>)
        ensures
            solves(self.factor@, self.uplo, b@, solution_view(r)),
    {
        let mut b = b;
        match self.solvec_mut(&mut b) {
            Ok(_) => Ok(b),
            Err(e) => Err(e),
        }
    }

    fn solvec_mut<'a>(&self, b: &'a mut Vec<A>) -> (r: Result<&'a mut Vec<A>, LinalgError>)
        ensures
            match r {
                Ok(x) => solves(self.factor@, self.uplo, old(b)@, Ok(x@)) && *final(b)
                    == *final(x),
                Err(e) => solves(self.factor@, self.uplo, old(b)@, Err(e)) && *final(b) == *old(b),
            },
    {
        let layout = match self.factor.square_layout() {
            Ok(layout) => layout,
            Err(e) => {
                return Err(e);
            },
        };
        if b.len() != layout.rows {
            return Err(LinalgError::InvalidLayout);
        }
        let _ = self.factor.layout();
        let mut rhs: Vec<A> = Vec::new();
        core::mem::swap(b, &mut rhs);
        let ghost before = rhs;
        let factor = self.factor.as_vec();
        let x = A::solve_cholesky(layout, self.uplo, factor, rhs);
        proof {
            assert(call_ensures(A::solve_cholesky, (layout, self.uplo, factor, before), x));
            assert(solved(layout, self.uplo, self.factor@.buffer, before@, x@));
        }
        *b = x;
        Ok(b)
    }
}

impl<A: Scalar> CholeskySolve<A> for Matrix<A> {
    fn solvec(&self, b: &Vec<A>) -> (r: Result<Vec<A>, LinalgError>)
        ensures
            solves_system(self@, b@, solution_view(r)),
    {
        let mut b = replicate(b);
        match self.solvec_mut(&mut b) {
            Ok(_) => Ok(b),
            Err(e) => Err(e),
        }
    }

    fn solvec_into(&self, b: Vec<A>) -> (r: Result<Vec<A>, LinalgError>)
        ensures
            solves_system(self@, b@, solution_view(r)),
    {
        let mut b = b;
        match self.solvec_mut(&mut b) {
            Ok(_) => Ok(b),
            Err(e) => Err(e),
        }
    }

    fn solvec_mut<'a>(&self, b: &'a mut Vec<A>) -> (r: Result<&'a mut Vec<A>, LinalgError>)
        ensures
            match r {
                Ok(x) => solves_system(self@, old(b)@, Ok(x@)) && *final(b) == *final(x),
                Err(e) => solves_system(self@, old(b)@, Err(e)) && *final(b) == *old(b),
            },
    {
        match self.factorizec(UPLO::Upper) {
            Ok(f) => f.solvec_mut(b),
            Err(e) => Err(e),
        }
    }
}

/// The inverse of a Hermitian (or real symmetric) positive definite matrix
/// that is only read.
pub trait CholeskyInverse {
    type Output;

    /// Computes the inverse in a buffer of its own.
    fn invc(&self) -> Result<Self::Output, LinalgError>;
}

/// The inverse of a Hermitian (or real symmetric) positive definite matrix
/// that is given away.
pub trait CholeskyInverseInto {
    type Output;

    /// Computes the inverse in the buffer of the matrix.
    fn invc_into(self) -> Result<Self::Output, LinalgError>;
}

impl<A: Scalar> CholeskyInverseInto for CholeskyFactorized<A> {
    type Output = Matrix<A>;

    fn invc_into(self) -> (r: Result<Matrix<A>, LinalgError>)
        ensures
            inverts(self.factor@, self.uplo, model(r)),
    {
        let layout = match self.factor.square_layout() {
            Ok(layout) => layout,
            Err(e) => {
                return Err(e);
            },
        };
        let _ = self.factor.layout();
        let data = self.factor.into_vec();
        let ghost before = data;
        let out = A::inv_cholesky(layout, self.uplo, data);
        proof {
            assert(call_ensures(A::inv_cholesky, (layout, self.uplo, before), out));
            assert(inverted(layout, self.uplo, before@, out@));
        }
        after_inversion(layout, self.uplo, out)
    }
}

impl<A: Scalar> CholeskyInverse for CholeskyFactorized<A> {
    type Output = Matrix<A>;

    fn invc(&self) -> (r: Result<Matrix<A>, LinalgError>)
        ensures
            inverts(self.factor@, self.uplo, model(r)),
    {
        let f = CholeskyFactorized { factor: self.factor.replicate(), uplo: self.uplo };
        f.invc_into()
    }
}

impl<A: Scalar> CholeskyInverse for Matrix<A> {
    type Output = Matrix<A>;

    fn invc(&self) -> (r: Result<Matrix<A>, LinalgError>)
        ensures
            inverts_matrix(self@, model(r)),
    {
        match self.factorizec(UPLO::Upper) {
            Ok(f) => f.invc_into(),
            Err(e) => Err(e),
        }
    }
}

impl<A: Scalar> CholeskyInverseInto for Matrix<A> {
    type Output = Matrix<A>;

    fn invc_into(self) -> (r: Result<Matrix<A>, LinalgError>)
        ensures
            inverts_matrix(self@, model(r)),
    {
        match self.factorizec_into(UPLO::Upper) {
            Ok(f) => f.invc_into(),
            Err(e) => Err(e),
        }
    }
}

/// The determinant of a Hermitian (or real symmetric) positive definite
/// matrix that is only read.
pub trait CholeskyDeterminant {
    type Output;

    /// Computes the determinant.
    fn detc(&self) -> Self::Output;
}

/// The determinant of a Hermitian (or real symmetric) positive definite
/// matrix that is given away.
pub trait CholeskyDeterminantInto {
    type Output;

    /// Computes the determinant.
    fn detc_into(self) -> Self::Output;
}

impl<A: Scalar> CholeskyDeterminant for CholeskyFactorized<A> {
    type Output = A::Real;

    fn detc(&self) -> (det: A::Real)
        ensures
            is_determinant::<A>(self.factor@.diag(), det),
    {
        let diag = self.factor.diag();
        let n = diag.len();
        let mut sum = A::real_zero();
        let ghost mut squares: Seq<A::Real> = Seq::empty();
        let ghost mut logs: Seq<A::Real> = Seq::empty();
        let ghost mut sums: Seq<A::Real> = seq![sum];
        let mut i: usize = 0;
        while i < n
            invariant
                i <= n,
                n == diag@.len(),
                sums.last() == sum,
                is_log_sum::<A>(diag@.take(i as int), squares, logs, sums),
            decreases n - i,
        {
            let square = diag[i].abs_sqr();
            let log = A::ln(square);
            let next = A::real_add(sum, log);
            proof {
                let ghost old_sums = sums;
                squares = squares.push(square);
                logs = logs.push(log);
                sums = sums.push(next);
                let d = diag@.take(i as int + 1);
                assert forall|m: int| 0 <= m < d.len() implies {
                    &&& #[trigger] is_abs_sqr::<A>(d[m], squares[m])
                    &&& is_ln::<A>(squares[m], logs[m])
                    &&& is_real_sum::<A>(sums[m], logs[m], sums[m + 1])
                } by {
                    if m < i {
                        assert(is_abs_sqr::<A>(diag@.take(i as int)[m], squares[m]));
                    }
                }
            }
            sum = next;
            i += 1;
        }
        assert(diag@.take(n as int) =~= diag@);
        A::exp(sum)
    }
}

impl<A: Scalar> CholeskyDeterminantInto for CholeskyFactorized<A> {
    type Output = A::Real;

    fn detc_into(self) -> (det: A::Real)
        ensures
            is_determinant::<A>(self.factor@.diag(), det),
    {
        self.detc()
    }
}

impl<A: Scalar> CholeskyDeterminant for Matrix<A> {
    type Output = Result<A::Real, LinalgError>;

    fn detc(&self) -> (r: Result<A::Real, LinalgError>)
        ensures
            is_determinant_of::<A>(self@, r),
    {
        match self.factorizec(UPLO::Upper) {
            Ok(f) => Ok(f.detc()),
            Err(e) => Err(e),
        }
    }
}

impl<A: Scalar> CholeskyDeterminantInto for Matrix<A> {
    type Output = Result<A::Real, LinalgError>;

    fn detc_into(self) -> (r: Result<A::Real, LinalgError>)
        ensures
            is_determinant_of::<A>(self@, r),
    {
        match self.factorizec_into(UPLO::Upper) {
            Ok(f) => Ok(f.detc_into()),
            Err(e) => Err(e),
        }
    }
}

} // verus!
