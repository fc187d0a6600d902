//! Errors of the FAT32 layer.
use vstd::prelude::*;

verus! {

/// The kind of an I/O failure.
#[derive(Debug, Copy, Clone, PartialEq, Eq, Structural)]
pub enum IoErrorKind {
    /// Fewer bytes than needed were available.
    UnexpectedEof,
    /// A parameter was outside the accepted range.
    InvalidInput,
    /// On-disk data was inconsistent.
    InvalidData,
    /// A path or entry does not exist.
    NotFound,
}

/// Errors decoding a FAT32 volume.
#[derive(Debug, Copy, Clone, PartialEq, Eq, Structural)]
pub enum Error {
    /// The device failed or returned too little data.
    Io(IoErrorKind),
    /// A boot sector or parameter block did not carry the `0xAA55` signature.
    BadSignature,
    /// The requested entry was not found.
    NotFound,
}

} // verus!
