//! The error taxonomy of the library.
//!
//! Every failing operation reports its cause through one of these
//! variants; an operation either returns a fully formed vector or one of
//! these errors, never a partial result.

use vstd::prelude::*;

verus! {

/// The ways an operation on a [`crate::Vector`] can fail.
#[derive(Clone, Copy, Debug, PartialEq, Eq, Structural)]
pub enum VectorError {
    /// A sequence builder was given an interval whose start does not lie
    /// strictly below its stop.
    InvalidInterval,
    /// A vector-vector operator was invoked on operands of differing
    /// length; both lengths are reported.
    LengthMismatch { left: usize, right: usize },
    /// An index or a slice bound reaches past the end of the vector.
    OutOfBounds,
}

impl VectorError {
    /// A short human-readable description of the failure.
    pub fn describe(&self) -> (r: &'static str)
        ensures
            r@ == match *self {
                VectorError::InvalidInterval => "invalid interval: start must be below stop"@,
                VectorError::LengthMismatch { .. } => "length mismatch between operands"@,
                VectorError::OutOfBounds => "index or slice bound out of bounds"@,
            },
    {
        match *self {
            VectorError::InvalidInterval => "invalid interval: start must be below stop",
            VectorError::LengthMismatch { .. } => "length mismatch between operands",
            VectorError::OutOfBounds => "index or slice bound out of bounds",
        }
    }
}

} // verus!
