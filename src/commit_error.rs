//! Why a commitment could not be produced.

use vstd::prelude::*;

verus! {

/// The ways `commit` can fail.
#[derive(Debug, Clone, Copy, PartialEq, Eq, Structural)]
pub enum CommitError {
    /// A worker did not deliver its chunk of rows.
    ComputeError,
    /// A, B, m or r is not of length / row count `LOCAL_N`, or a row of A or B
    /// is not of length `LOCAL_N`.
    DimensionMismatch,
}

} // verus!
