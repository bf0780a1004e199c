//! The ways in which encoding a sequence can fail.

use vstd::prelude::*;

verus! {

/// Why a sequence could not be encoded.
#[derive(Debug, Clone, Copy, PartialEq, Eq, Structural)]
pub enum NumSeqError {
    /// The input holds no element, so there is no first value to start from.
    InvalidInput,
    /// The difference of two neighbouring values does not fit in an `i16`.
    Overflow,
}

} // verus!
