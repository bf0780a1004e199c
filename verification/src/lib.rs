//! Compact encodings of `i16` sequences that are piecewise constant or
//! piecewise linear.
//!
//! [`RleNumSeq`] keeps a sequence run-length encoded, together with a
//! denominator for callers that scale the values. [`DeltaRleNumSeq`] keeps the
//! first value and the run-length encoded differences of neighbours, and
//! decodes back to the sequence by a running sum.
//!
//! Both hold their runs in an `rle_vec::RleVec`. The module [`runs`] says what
//! a list of runs means, [`store`] says what is assumed of `RleVec`, and the
//! contracts of the two encodings are proved from there.

pub mod delta;
pub mod direct;
pub mod error;
pub mod runs;
pub mod store;

pub use delta::{DeltaRleNumSeq, DeltaRleNumSeqView};
pub use direct::{RleNumSeq, RleNumSeqView};
pub use error::NumSeqError;
