//! The ways in which an operation of this crate can fail.

use vstd::prelude::*;

verus! {

/// Why an operation was refused.
#[derive(Debug, Clone, Copy, PartialEq, Eq, Structural)]
pub enum Error {
    /// A chunk type holds a byte that is not an ASCII letter, or its text is
    /// not exactly four bytes long.
    InvalidTag,
    /// The buffer ends before the record or signature that it should hold.
    Truncated,
    /// The checksum stored in a chunk is not the checksum of its contents.
    ChecksumMismatch,
    /// The buffer does not start with the PNG signature.
    BadSignature,
    /// No chunk of the requested type is present.
    NotFound,
    /// Extraction was requested from a file that carries no hidden data.
    NoHiddenData,
    /// The payload is not valid UTF-8.
    InvalidEncoding,
    /// The file is of a format that this crate does not handle.
    UnsupportedFormat,
}

} // verus!
