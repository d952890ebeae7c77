use vstd::prelude::*;

verus! {

/// Why an operation gave no result.
///
/// Each of the three ends the operation that raised it; none is retried or
/// replaced by another.
#[derive(Clone, Copy, Debug, PartialEq, Eq, Structural)]
pub enum LinalgError {
    /// The matrix has `rows` rows and `cols` columns, and these differ.
    NotSquare { rows: usize, cols: usize },
    /// The strides, or the length of the buffer, describe neither a row-major
    /// nor a column-major dense matrix.
    InvalidLayout,
    /// The factorization kernel stopped: the leading principal minor of this
    /// order (counted from 1) is not positive.
    NotPositiveDefinite { leading_minor_index: i32 },
}

/// What a status code of the factorization kernel means: 0 is success, and any
/// other code is the order of the leading minor at which the kernel stopped.
pub open spec fn info_outcome(info: i32) -> Result<(), LinalgError> {
    if info == 0 {
        Ok(())
    } else {
        Err(LinalgError::NotPositiveDefinite { leading_minor_index: info })
    }
}

/// Turns the status code of the factorization kernel into a result, keeping
/// the code as it came.
pub fn check_info(info: i32) -> (r: Result<(), LinalgError>)
    ensures
        r == info_outcome(info),
{
    if info == 0 {
        Ok(())
    } else {
        Err(LinalgError::NotPositiveDefinite { leading_minor_index: info })
    }
}

} // verus!
