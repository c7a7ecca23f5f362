//! The ways a caller can misuse a view.

use vstd::prelude::*;

verus! {

/// Why an operation on views was refused.
///
/// Every variant marks a mistake of the caller; none is a condition to
/// retry on.
#[derive(Clone, Copy, Debug, PartialEq, Eq, Structural)]
pub enum SnapError {
    /// A split offset lies beyond the length of the view.
    OutOfRange,
    /// Two views handed to a merge do not share one buffer.
    DifferentOrigins,
    /// Two views of one buffer, handed to a merge, do not touch in the
    /// order given: the left one does not end where the right one starts.
    NonContiguous,
    /// A chunk size of zero was asked for.
    ZeroChunkSize,
}

} // verus!
