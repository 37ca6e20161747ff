//! Errors that can occur while assembling matrices or solving a system.

use vstd::prelude::*;

verus! {

/// Error taxonomy for matrix construction and the solve pipeline.
///
/// `CompColError` and `DenseMatrixError` report malformed input vectors and
/// are raised locally, before the solver is ever invoked.  `OutOfMemory` and
/// `UnknownError` re-encode status codes reported by the solver itself.
#[derive(Debug, Clone, Copy, PartialEq, Eq, Structural)]
pub enum Error {
    /// The vectors handed over for a compressed-column matrix have
    /// inconsistent lengths.
    CompColError,
    /// The buffer handed over for a dense matrix does not hold exactly
    /// `num_rows * num_cols` values.
    DenseMatrixError,
    /// The solver ran out of memory; the payload is the number of bytes
    /// allocated when the failure occurred.
    OutOfMemory { mem_alloc_at_failure: usize },
    /// The solver reported a negative status code, which its interface
    /// never documents.
    UnknownError,
}

} // verus!
