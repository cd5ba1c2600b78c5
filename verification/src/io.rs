//! What byte streams share: where to seek, and how errors are classed.

use vstd::prelude::*;

verus! {

/// A position to seek to in a byte stream.
#[derive(Clone, Copy, Debug, PartialEq, Eq)]
pub enum SeekFrom {
    /// This many bytes from the start.
    Start(u64),
    /// This many bytes behind the end; the offset is signed, and negative for a position
    /// before the end.
    End(i64),
    /// This many bytes behind the current position; the offset is signed.
    Current(i64),
}

/// The class of an error, for callers that do not care for its source.
#[derive(Clone, Copy, Debug, PartialEq, Eq)]
pub enum ErrorKind {
    /// A parameter was incorrect.
    InvalidInput,
    /// Anything else.
    Other,
}

} // verus!
