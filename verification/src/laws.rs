//! What holds of every operation of the crate, whatever the element type and
//! its kernels.

use crate::cholesky::{
    factor_outcome, factorizes, factorizes_in_place, in_place_outcome, inverse_outcome, inverts,
    inverts_matrix, is_determinant, is_determinant_of, is_log_sum, is_lower_of, is_upper_of,
    not_square, solves, solves_system,
};
use crate::error::LinalgError;
use crate::layout::{MatrixLayout, UPLO};
use crate::matrix::Dense;
use crate::scalar::{
    factored, inverted, is_abs_sqr, is_conj, is_exp, is_ln, is_real_sum, is_real_zero, is_zero,
    solved, Scalar,
};
use vstd::prelude::*;

verus! {

/// Whether the operations of the element type are functions: handed the same
/// values, each of them gives back the same value.
pub open spec fn is_deterministic<A: Scalar>() -> bool {
    &&& forall|x: A, y: A| #[trigger] is_zero(x) && #[trigger] is_zero(y) ==> x == y
    &&& forall|a: A, x: A, y: A| #[trigger] is_conj(a, x) && #[trigger] is_conj(a, y) ==> x == y
    &&& forall|a: A, x: A::Real, y: A::Real| #[trigger]
        is_abs_sqr::<A>(a, x) && #[trigger] is_abs_sqr::<A>(a, y) ==> x == y
    &&& forall|x: A::Real, y: A::Real| #[trigger]
        is_real_zero::<A>(x) && #[trigger] is_real_zero::<A>(y) ==> x == y
    &&& forall|a: A::Real, b: A::Real, x: A::Real, y: A::Real| #[trigger]
        is_real_sum::<A>(a, b, x) && #[trigger] is_real_sum::<A>(a, b, y) ==> x == y
    &&& forall|a: A::Real, x: A::Real, y: A::Real| #[trigger]
        is_ln::<A>(a, x) && #[trigger] is_ln::<A>(a, y) ==> x == y
    &&& forall|a: A::Real, x: A::Real, y: A::Real| #[trigger]
        is_exp::<A>(a, x) && #[trigger] is_exp::<A>(a, y) ==> x == y
    &&& forall|l: MatrixLayout, u: UPLO, a: Seq<A>, o1: Seq<A>, i1: i32, o2: Seq<A>, i2: i32|
        #[trigger] factored(l, u, a, o1, i1) && #[trigger] factored(l, u, a, o2, i2) ==> o1 == o2
            && i1 == i2
    &&& forall|l: MatrixLayout, u: UPLO, a: Seq<A>, b: Seq<A>, x: Seq<A>, y: Seq<A>| #[trigger]
        solved(l, u, a, b, x) && #[trigger] solved(l, u, a, b, y) ==> x == y
    &&& forall|l: MatrixLayout, u: UPLO, a: Seq<A>, x: Seq<A>, y: Seq<A>| #[trigger]
        inverted(l, u, a, x) && #[trigger] inverted(l, u, a, y) ==> x == y
}

/// A matrix that is not square is refused with `NotSquare`, which names its
/// shape, by every operation, and is left as it was: the answer does not
/// depend on any kernel.
pub proof fn lemma_not_square_is_refused<A: Scalar>(
    a: Dense<A>,
    uplo: UPLO,
    b: Seq<A>,
    factor: Result<Dense<A>, LinalgError>,
    after: Dense<A>,
    done: Result<(), LinalgError>,
    x: Result<Seq<A>, LinalgError>,
    inverse: Result<Dense<A>, LinalgError>,
    det: Result<A::Real, LinalgError>,
)
    requires
        !a.layout.is_square(),
    ensures
        factorizes(a, uplo, factor) <==> factor == Err::<Dense<A>, _>(not_square(a.layout)),
        factorizes_in_place(a, uplo, after, done) <==> done == Err::<(), _>(
            not_square(a.layout),
        ) && after == a,
        solves(a, uplo, b, x) <==> x == Err::<Seq<A>, _>(not_square(a.layout)),
        solves_system(a, b, x) <==> x == Err::<Seq<A>, _>(not_square(a.layout)),
        inverts(a, uplo, inverse) <==> inverse == Err::<Dense<A>, _>(not_square(a.layout)),
        inverts_matrix(a, inverse) <==> inverse == Err::<Dense<A>, _>(not_square(a.layout)),
        is_determinant_of::<A>(a, det) <==> det == Err::<A::Real, _>(not_square(a.layout)),
{
    let refused = Err::<Dense<A>, _>(not_square(a.layout));
    assert(factorizes(a, UPLO::Upper, refused));
}

/// The status code of the factorization kernel reaches the caller as it came:
/// a square matrix for which the kernel reports `info` other than 0, in a
/// buffer of the right length, fails with `NotPositiveDefinite` and that very
/// `info`.
pub proof fn lemma_kernel_failure_is_reported<A: Scalar>(
    layout: MatrixLayout,
    uplo: UPLO,
    out: Seq<A>,
    info: i32,
    r: Result<Dense<A>, LinalgError>,
)
    requires
        out.len() == layout.size(),
        info != 0,
    ensures
        factor_outcome(layout, uplo, out, info, r) <==> r == Err::<Dense<A>, _>(
            LinalgError::NotPositiveDefinite { leading_minor_index: info },
        ),
{
}

/// Of the two factors that a factorization hands out, one is the stored
/// factor and the other is a conjugate transpose of it: with `U` stored, the
/// lower factor is a conjugate transpose of the upper one, and with `L`
/// stored, the upper factor is a conjugate transpose of the lower one.
pub proof fn lemma_lower_and_upper<A: Scalar>(
    factor: Dense<A>,
    uplo: UPLO,
    l: Dense<A>,
    u: Dense<A>,
)
    requires
        is_lower_of(l, factor, uplo),
        is_upper_of(u, factor, uplo),
    ensures
        uplo == UPLO::Upper ==> u == factor && l.is_conj_transpose_of(u),
        uplo == UPLO::Lower ==> l == factor && u.is_conj_transpose_of(l),
{
}

/// With an element type whose operations are functions, a conjugate
/// transpose, a triangle and a Hermitian completion of a matrix are each
/// determined by the matrix.
pub proof fn lemma_matrix_operations_are_functions<A: Scalar>(
    m: Dense<A>,
    uplo: UPLO,
    x: Dense<A>,
    y: Dense<A>,
)
    requires
        is_deterministic::<A>(),
    ensures
        x.is_conj_transpose_of(m) && y.is_conj_transpose_of(m) ==> x == y,
        x.is_triangle_of(m, uplo) && y.is_triangle_of(m, uplo) ==> x == y,
        x.is_hermitian_of(m, uplo) && y.is_hermitian_of(m, uplo) ==> x == y,
{
    if x.is_conj_transpose_of(m) && y.is_conj_transpose_of(m) {
        assert forall|i: int, j: int| x.has(i, j) implies x.at(i, j) == y.at(i, j) by {
            assert(is_conj(m.at(j, i), x.at(i, j)));
            assert(is_conj(m.at(j, i), y.at(i, j)));
        }
        x.lemma_entries_determine(y);
    }
    if x.is_triangle_of(m, uplo) && y.is_triangle_of(m, uplo) {
        assert forall|i: int, j: int| x.has(i, j) implies x.at(i, j) == y.at(i, j) by {
            if uplo.keeps(i, j) {
                assert(x.at(i, j) == m.at(i, j));
                assert(y.at(i, j) == m.at(i, j));
            } else {
                assert(is_zero(x.at(i, j)));
                assert(is_zero(y.at(i, j)));
            }
        }
        x.lemma_entries_determine(y);
    }
    if x.is_hermitian_of(m, uplo) && y.is_hermitian_of(m, uplo) {
        assert forall|i: int, j: int| x.has(i, j) implies x.at(i, j) == y.at(i, j) by {
            if uplo.keeps(i, j) {
                assert(x.at(i, j) == m.at(i, j));
                assert(y.at(i, j) == m.at(i, j));
            } else {
                assert(is_conj(m.at(j, i), x.at(i, j)));
                assert(is_conj(m.at(j, i), y.at(i, j)));
            }
        }
        x.lemma_entries_determine(y);
    }
}

/// With an element type whose operations are functions, factorizing is a
/// function of the matrix and the triangle: the borrowing, the consuming and
/// the in-place form, which all answer to `factorizes`, give the same result
/// on the same input.
pub proof fn lemma_factorization_is_function<A: Scalar>(
    a: Dense<A>,
    uplo: UPLO,
    r1: Result<Dense<A>, LinalgError>,
    r2: Result<Dense<A>, LinalgError>,
)
    requires
        is_deterministic::<A>(),
        factorizes(a, uplo, r1),
        factorizes(a, uplo, r2),
    ensures
        r1 == r2,
{
    if a.layout.is_square() {
        let (o1, i1) = choose|out: Seq<A>, info: i32| #[trigger]
            factored(a.layout, uplo, a.buffer, out, info) && factor_outcome(
                a.layout,
                uplo,
                out,
                info,
                r1,
            );
        let (o2, i2) = choose|out: Seq<A>, info: i32| #[trigger]
            factored(a.layout, uplo, a.buffer, out, info) && factor_outcome(
                a.layout,
                uplo,
                out,
                info,
                r2,
            );
        assert(o1 == o2 && i1 == i2);
        if o1.len() == a.layout.size() && i1 == 0 {
            lemma_matrix_operations_are_functions(
                Dense { layout: a.layout, buffer: o1 },
                uplo,
                r1->Ok_0,
                r2->Ok_0,
            );
        }
    }
}

/// The in-place form of the factorization answers to `factorizes` too: what
/// it returns, with the matrix it leaves on success, is a result of
/// factorizing.
pub proof fn lemma_in_place_factorizes<A: Scalar>(
    a: Dense<A>,
    uplo: UPLO,
    after: Dense<A>,
    done: Result<(), LinalgError>,
)
    requires
        factorizes_in_place(a, uplo, after, done),
    ensures
        factorizes(
            a,
            uplo,
            match done {
                Ok(_) => Ok(after),
                Err(e) => Err(e),
            },
        ),
{
    if a.layout.is_square() {
        let (out, info) = choose|out: Seq<A>, info: i32| #[trigger]
            factored(a.layout, uplo, a.buffer, out, info) && in_place_outcome(
                a.layout,
                uplo,
                out,
                info,
                done,
                after,
            );
        let r: Result<Dense<A>, LinalgError> = match done {
            Ok(_) => Ok(after),
            Err(e) => Err(e),
        };
        assert(factored(a.layout, uplo, a.buffer, out, info) && factor_outcome(
            a.layout,
            uplo,
            out,
            info,
            r,
        ));
    }
}

/// With an element type whose operations are functions, solving with a
/// factorization is a function of the factor, the triangle and the
/// right-hand side: `solvec`, `solvec_into` and `solvec_mut` give the same
/// result on the same input.
pub proof fn lemma_solving_is_function<A: Scalar>(
    factor: Dense<A>,
    uplo: UPLO,
    b: Seq<A>,
    x1: Result<Seq<A>, LinalgError>,
    x2: Result<Seq<A>, LinalgError>,
)
    requires
        is_deterministic::<A>(),
        solves(factor, uplo, b, x1),
        solves(factor, uplo, b, x2),
    ensures
        x1 == x2,
{
}

/// With an element type whose operations are functions, inverting with a
/// factorization is a function of the factor and the triangle: `invc` and
/// `invc_into` give the same result on the same input.
pub proof fn lemma_inverting_is_function<A: Scalar>(
    factor: Dense<A>,
    uplo: UPLO,
    r1: Result<Dense<A>, LinalgError>,
    r2: Result<Dense<A>, LinalgError>,
)
    requires
        is_deterministic::<A>(),
        inverts(factor, uplo, r1),
        inverts(factor, uplo, r2),
    ensures
        r1 == r2,
{
    if factor.layout.is_square() {
        let o1 = choose|out: Seq<A>| #[trigger]
            inverted(factor.layout, uplo, factor.buffer, out) && inverse_outcome(
                factor.layout,
                uplo,
                out,
                r1,
            );
        let o2 = choose|out: Seq<A>| #[trigger]
            inverted(factor.layout, uplo, factor.buffer, out) && inverse_outcome(
                factor.layout,
                uplo,
                out,
                r2,
            );
        assert(o1 == o2);
        if o1.len() == factor.layout.size() {
            lemma_matrix_operations_are_functions(
                Dense { layout: factor.layout, buffer: o1 },
                uplo,
                r1->Ok_0,
                r2->Ok_0,
            );
        }
    }
}

/// With an element type whose operations are functions, the running sums of
/// the logarithms are determined by the diagonal.
pub proof fn lemma_log_sum_is_function<A: Scalar>(
    diag: Seq<A>,
    s1: Seq<A::Real>,
    l1: Seq<A::Real>,
    t1: Seq<A::Real>,
    s2: Seq<A::Real>,
    l2: Seq<A::Real>,
    t2: Seq<A::Real>,
    k: int,
)
    requires
        is_deterministic::<A>(),
        is_log_sum::<A>(diag, s1, l1, t1),
        is_log_sum::<A>(diag, s2, l2, t2),
        0 <= k <= diag.len(),
    ensures
        t1[k] == t2[k],
    decreases k,
{
    if k > 0 {
        lemma_log_sum_is_function::<A>(diag, s1, l1, t1, s2, l2, t2, k - 1);
        assert(is_abs_sqr::<A>(diag[k - 1], s1[k - 1]));
        assert(is_abs_sqr::<A>(diag[k - 1], s2[k - 1]));
        assert(is_ln::<A>(s1[k - 1], l1[k - 1]));
        assert(is_ln::<A>(s2[k - 1], l2[k - 1]));
        assert(is_real_sum::<A>(t1[k - 1], l1[k - 1], t1[k - 1 + 1]));
        assert(is_real_sum::<A>(t2[k - 1], l2[k - 1], t2[k - 1 + 1]));
    }
}

/// With an element type whose operations are functions, the determinant is a
/// function of the diagonal of the factor: `detc` and `detc_into` give the
/// same result on the same input.
pub proof fn lemma_determinant_is_function<A: Scalar>(diag: Seq<A>, d1: A::Real, d2: A::Real)
    requires
        is_deterministic::<A>(),
        is_determinant::<A>(diag, d1),
        is_determinant::<A>(diag, d2),
    ensures
        d1 == d2,
{
    let (s1, l1, t1) = choose|squares: Seq<A::Real>, logs: Seq<A::Real>, sums: Seq<A::Real>|
        #![trigger is_log_sum::<A>(diag, squares, logs, sums)]
        is_log_sum::<A>(diag, squares, logs, sums) && is_exp::<A>(sums.last(), d1);
    let (s2, l2, t2) = choose|squares: Seq<A::Real>, logs: Seq<A::Real>, sums: Seq<A::Real>|
        #![trigger is_log_sum::<A>(diag, squares, logs, sums)]
        is_log_sum::<A>(diag, squares, logs, sums) && is_exp::<A>(sums.last(), d2);
    lemma_log_sum_is_function::<A>(diag, s1, l1, t1, s2, l2, t2, diag.len() as int);
}

/// With an element type whose operations are functions, the operations on a
/// plain matrix are functions of their input too: solving, inverting and the
/// determinant each give the same result in their borrowing and their
/// consuming form.
pub proof fn lemma_matrix_entry_points_are_functions<A: Scalar>(
    a: Dense<A>,
    b: Seq<A>,
    x1: Result<Seq<A>, LinalgError>,
    x2: Result<Seq<A>, LinalgError>,
    v1: Result<Dense<A>, LinalgError>,
    v2: Result<Dense<A>, LinalgError>,
    d1: Result<A::Real, LinalgError>,
    d2: Result<A::Real, LinalgError>,
)
    requires
        is_deterministic::<A>(),
    ensures
        solves_system(a, b, x1) && solves_system(a, b, x2) ==> x1 == x2,
        inverts_matrix(a, v1) && inverts_matrix(a, v2) ==> v1 == v2,
        is_determinant_of::<A>(a, d1) && is_determinant_of::<A>(a, d2) ==> d1 == d2,
{
    if solves_system(a, b, x1) && solves_system(a, b, x2) {
        let f1 = choose|f: Result<Dense<A>, LinalgError>| #[trigger]
            factorizes(a, UPLO::Upper, f) && match f {
                Ok(m) => solves(m, UPLO::Upper, b, x1),
                Err(e) => x1 == Err::<Seq<A>, _>(e),
            };
        let f2 = choose|f: Result<Dense<A>, LinalgError>| #[trigger]
            factorizes(a, UPLO::Upper, f) && match f {
                Ok(m) => solves(m, UPLO::Upper, b, x2),
                Err(e) => x2 == Err::<Seq<A>, _>(e),
            };
        lemma_factorization_is_function(a, UPLO::Upper, f1, f2);
    }
    if inverts_matrix(a, v1) && inverts_matrix(a, v2) {
        let f1 = choose|f: Result<Dense<A>, LinalgError>| #[trigger]
            factorizes(a, UPLO::Upper, f) && match f {
                Ok(m) => inverts(m, UPLO::Upper, v1),
                Err(e) => v1 == Err::<Dense<A>, _>(e),
            };
        let f2 = choose|f: Result<Dense<A>, LinalgError>| #[trigger]
            factorizes(a, UPLO::Upper, f) && match f {
                Ok(m) => inverts(m, UPLO::Upper, v2),
                Err(e) => v2 == Err::<Dense<A>, _>(e),
            };
        lemma_factorization_is_function(a, UPLO::Upper, f1, f2);
        if f1 is Ok {
            lemma_inverting_is_function(f1->Ok_0, UPLO::Upper, v1, v2);
        }
    }
    if is_determinant_of::<A>(a, d1) && is_determinant_of::<A>(a, d2) {
        let f1 = choose|f: Result<Dense<A>, LinalgError>| #[trigger]
            factorizes(a, UPLO::Upper, f) && match f {
                Ok(m) => d1 is Ok && is_determinant::<A>(m.diag(), d1->Ok_0),
                Err(e) => d1 == Err::<A::Real, _>(e),
            };
        let f2 = choose|f: Result<Dense<A>, LinalgError>| #[trigger]
            factorizes(a, UPLO::Upper, f) && match f {
                Ok(m) => d2 is Ok && is_determinant::<A>(m.diag(), d2->Ok_0),
                Err(e) => d2 == Err::<A::Real, _>(e),
            };
        lemma_factorization_is_function(a, UPLO::Upper, f1, f2);
        if f1 is Ok {
            lemma_determinant_is_function::<A>(f1->Ok_0.diag(), d1->Ok_0, d2->Ok_0);
        }
    }
}

} // verus!
