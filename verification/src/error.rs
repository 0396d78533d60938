//! What can go wrong while building or multiplying matrices.

use vstd::prelude::*;

verus! {

/// The failures of the matrix operations.
#[derive(Debug, Clone, Copy, PartialEq, Eq, Structural)]
pub enum MatrixError {
    /// The flat data of a matrix does not hold `rows * cols` elements.
    ShapeMismatch,
    /// The left operand's column count differs from the right operand's row count.
    DimensionMismatch,
    /// The two vectors of a dot product differ in length.
    DotProductLengthMismatch,
    /// A sum or product of elements is out of the element type's range.
    Overflow,
    /// A job ended without a reply.
    ReplyLost,
}

} // verus!
