//! Errors raised while a container is decoded.

use vstd::prelude::*;

verus! {

/// A sub-format tag that the pixel-format table does not list.
#[derive(Clone, Copy, Debug, PartialEq, Eq)]
pub struct UnknownPixel(pub u8);

/// The decompressor's account of why it rejected a prepared stream.
#[derive(Debug, PartialEq, Eq)]
pub struct DecompressionError(pub String);

/// Everything that can go wrong between raw container bytes and sprites.
#[derive(Debug, PartialEq, Eq)]
pub enum DecodeError {
    /// The raw input is shorter than the smallest container that could hold
    /// a compressed stream.
    TooSmallContainer,
    /// The stream was prepared, but the decompressor rejected it.
    DecompressionFailure(DecompressionError),
    /// An image record names a sub-format outside the pixel-format table.
    UnknownPixelFormat(UnknownPixel),
    /// A read asked for more bytes than the decoded buffer still holds.
    RecordUnderrun,
}

} // verus!
