//! Cholesky factorization of Hermitian (or real symmetric) positive-definite
//! matrices, and what is built on one factorization: solving linear systems,
//! inverting, and the determinant.
//!
//! The crate is the layer between a dense matrix and the numerical kernels. It
//! never does arithmetic on the elements of a matrix itself: an element type
//! brings its kernels along through [`Scalar`]. What is proved here is what
//! that layer decides: which matrices reach a kernel and with which
//! description of their buffer, what becomes of the buffer that a kernel leaves
//! behind, and which error is reported when.

pub mod cholesky;
pub mod error;
pub mod laws;
pub mod layout;
pub mod matrix;
pub mod scalar;

pub use cholesky::{
    after_factorization, after_inversion, Cholesky, CholeskyDeterminant,
    CholeskyDeterminantInto, CholeskyFactorize, CholeskyFactorizeInto, CholeskyFactorized,
    CholeskyInto, CholeskyInverse, CholeskyInverseInto, CholeskyMut, CholeskySolve,
};
pub use error::LinalgError;
pub use layout::{MatrixLayout, Order, UPLO};
pub use matrix::{Dense, Matrix};
pub use scalar::Scalar;
