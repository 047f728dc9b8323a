//! The error taxonomy: every failure is a precondition violation detected
//! at the boundary of an operation, surfaced immediately and never retried.

use vstd::prelude::*;

verus! {

/// What went wrong with a matrix operation.
#[derive(Clone, Copy, Debug, PartialEq, Eq, Structural)]
pub enum MatError {
    /// A dimension was non-positive, shapes did not match for addition,
    /// inner dimensions did not match for multiplication, or a buffer
    /// length did not match its shape.
    DimensionError,
    /// An operation requiring row-major physical layout was invoked on a
    /// matrix currently in column-major state; finalize first.
    LayoutError,
    /// A coordinate or row index lay outside the matrix's current shape.
    BoundsError,
}

} // verus!
