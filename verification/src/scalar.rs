use crate::layout::{MatrixLayout, UPLO};
use vstd::prelude::*;

verus! {

/// Whether a square layout describes a buffer of this many entries: what every
/// kernel asks of the buffer it is handed.
pub open spec fn square_buffer(layout: MatrixLayout, len: nat) -> bool {
    layout.is_square() && len == layout.size()
}

/// The element type of a matrix: a real or complex number type, together with
/// the numerical kernels for buffers of it.
///
/// This crate does no arithmetic on elements. It copies them, conjugates
/// them, writes zeros, and hands buffers of them to the kernels; all of that
/// comes from here. The trait promises nothing about what an implementation
/// computes. The contracts of this crate speak of an implementation through
/// what it ensures itself (see [`is_conj`], [`factored`] and their
/// neighbours), and state what the crate does with whatever comes back. What
/// the trait does fix is what a kernel may rely on: it is only ever handed a
/// square layout and a buffer of exactly that size.
pub trait Scalar: Copy {
    /// The real numbers in which a magnitude is measured.
    type Real: Copy;

    /// The complex conjugate; for a real number, the number itself.
    fn conj(self) -> Self;

    /// Zero.
    fn zero() -> Self;

    /// The square of the magnitude.
    fn abs_sqr(self) -> Self::Real;

    /// The real zero, with which a sum starts.
    fn real_zero() -> Self::Real;

    /// The sum of two reals.
    fn real_add(x: Self::Real, y: Self::Real) -> Self::Real;

    /// The natural logarithm.
    fn ln(x: Self::Real) -> Self::Real;

    /// The exponential function.
    fn exp(x: Self::Real) -> Self::Real;

    /// Factorizes the triangle `uplo` of the square matrix that `layout`
    /// describes in `a`. Gives back the buffer and a status code: 0 when the
    /// factor stands in that triangle, and otherwise the order (counted from
    /// 1) of the first leading principal minor that is not positive.
    fn cholesky(layout: MatrixLayout, uplo: UPLO, a: Vec<Self>) -> (r: (Vec<Self>, i32))
        requires
            square_buffer(layout, a@.len()),
    ;

    /// Solves `A x = b`, where `a` holds in its triangle `uplo` the Cholesky
    /// factor of `A`. Gives back the buffer of `b` with `x` in it.
    fn solve_cholesky(layout: MatrixLayout, uplo: UPLO, a: &Vec<Self>, b: Vec<Self>) -> (x: Vec<
        Self,
    >)
        requires
            square_buffer(layout, a@.len()),
            b@.len() == layout.rows,
    ;

    /// Replaces the Cholesky factor of `A`, which `a` holds in its triangle
    /// `uplo`, by the same triangle of the inverse of `A`, and gives the
    /// buffer back.
    fn inv_cholesky(layout: MatrixLayout, uplo: UPLO, a: Vec<Self>) -> (r: Vec<Self>)
        requires
            square_buffer(layout, a@.len()),
    ;
}

/// Whether `r` may come back as the conjugate of `x`.
pub open spec fn is_conj<A: Scalar>(x: A, r: A) -> bool {
    call_ensures(A::conj, (x,), r)
}

/// Whether `r` may come back as zero.
pub open spec fn is_zero<A: Scalar>(r: A) -> bool {
    call_ensures(A::zero, (), r)
}

/// Whether `r` may come back as the squared magnitude of `x`.
pub open spec fn is_abs_sqr<A: Scalar>(x: A, r: A::Real) -> bool {
    call_ensures(A::abs_sqr, (x,), r)
}

/// Whether `r` may come back as the real zero.
pub open spec fn is_real_zero<A: Scalar>(r: A::Real) -> bool {
    call_ensures(A::real_zero, (), r)
}

/// Whether `r` may come back as the sum of `x` and `y`.
pub open spec fn is_real_sum<A: Scalar>(x: A::Real, y: A::Real, r: A::Real) -> bool {
    call_ensures(A::real_add, (x, y), r)
}

/// Whether `r` may come back as the natural logarithm of `x`.
pub open spec fn is_ln<A: Scalar>(x: A::Real, r: A::Real) -> bool {
    call_ensures(A::ln, (x,), r)
}

/// Whether `r` may come back as the exponential of `x`.
pub open spec fn is_exp<A: Scalar>(x: A::Real, r: A::Real) -> bool {
    call_ensures(A::exp, (x,), r)
}

/// Whether the factorization kernel, told `layout` and `uplo` and handed a
/// buffer that holds `a`, may give back a buffer that holds `out` together
/// with the status code `info`.
pub open spec fn factored<A: Scalar>(
    layout: MatrixLayout,
    uplo: UPLO,
    a: Seq<A>,
    out: Seq<A>,
    info: i32,
) -> bool {
    exists|v: Vec<A>, w: Vec<A>|
        v@ == a && w@ == out && #[trigger] call_ensures(A::cholesky, (layout, uplo, v), (w, info))
}

/// Whether the solving kernel, handed the factor `a` and the right-hand side
/// `b`, may give back `x`.
pub open spec fn solved<A: Scalar>(
    layout: MatrixLayout,
    uplo: UPLO,
    a: Seq<A>,
    b: Seq<A>,
    x: Seq<A>,
) -> bool {
    exists|u: Vec<A>, v: Vec<A>, w: Vec<A>|
        u@ == a && v@ == b && w@ == x && #[trigger] call_ensures(
            A::solve_cholesky,
            (layout, uplo, &u, v),
            w,
        )
}

/// Whether the inverting kernel, handed the factor `a`, may give back `out`.
pub open spec fn inverted<A: Scalar>(layout: MatrixLayout, uplo: UPLO, a: Seq<A>, out: Seq<A>)
    -> bool {
    exists|v: Vec<A>, w: Vec<A>|
        v@ == a && w@ == out && #[trigger] call_ensures(A::inv_cholesky, (layout, uplo, v), w)
}

} // verus!
