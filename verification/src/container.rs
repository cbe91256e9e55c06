//! Raw containers: telling the two kinds apart, repairing the header of
//! the compressed stream, and decompressing it.

use crate::errors::{DecodeError, DecompressionError};
use vstd::prelude::*;
use vstd::slice::slice_subrange;

verus! {

/// The two kinds of container, as their first bytes tell them apart.
#[derive(Clone, Copy, Debug, PartialEq, Eq, Structural)]
pub enum ContainerKind {
    /// A sprite container: outer header, then a compressed record stream.
    Tex,
    /// A compressed table, to be decompressed and passed on as it is.
    Csv,
}

/// A stream carries one byte of properties, four of dictionary size and
/// four of unpacked size before the compressed data.
pub const STREAM_HEADER_LEN: usize = 9;

/// What the first bytes of a container say about its kind: a sprite
/// container starts with the byte 83, a table with the bytes 93 and 0.
pub open spec fn header_kind(data: Seq<u8>) -> Option<ContainerKind> {
    if data.len() >= 1 && data[0] == 83 {
        Some(ContainerKind::Tex)
    } else if data.len() >= 2 && data[0] == 93 && data[1] == 0 {
        Some(ContainerKind::Csv)
    } else {
        None
    }
}

/// The stream with its size field widened: the first nine bytes, four zero
/// bytes, then the rest. The container format keeps only the low half of
/// the 64-bit unpacked size that the decompressor expects.
pub open spec fn patched(raw: Seq<u8>) -> Seq<u8> {
    raw.take(9) + seq![0u8, 0u8, 0u8, 0u8] + raw.skip(9)
}

/// What the LZMA decoder makes of a stream with a full 13-byte header:
/// the decompressed bytes, or `None` where it rejects the stream.
pub uninterp spec fn lzma_output(stream: Seq<u8>) -> Option<Seq<u8>>;

/// What decompression makes of the stream of a container: what the
/// decoder makes of the repaired stream. On a target whose `usize` has
/// fewer than 64 bits the decoder is not run, and nothing is decompressed.
pub open spec fn decompressed(raw: Seq<u8>) -> Option<Seq<u8>> {
    if usize::BITS == 64 {
        lzma_output(patched(raw))
    } else {
        None
    }
}

/// The error type of `lzma_rs`. A value of it is carried from the decoder
/// to `describe` and never looked into.
#[verifier::external_type_specification]
#[verifier::external_body]
pub struct ExLzmaError(lzma_rs::error::Error);

/// Calls `lzma_rs::lzma_decompress` on an in-memory stream and collects
/// what it writes.
///
/// The decoder reads nothing but the stream and keeps no state between
/// calls, so its outcome is a function of the stream's bytes. It reports
/// every malformed stream as an error. Its dictionary indices are sums of
/// `usize` values that can pass 32 bits, hence the demand on the target.
#[verifier::external_body]
fn lzma_decode(stream: &Vec<u8>) -> (r: Result<Vec<u8>, lzma_rs::error::Error>)
    requires
        usize::BITS == 64,
    ensures
        lzma_output(stream@) == match r {
            Ok(decoded) => Some(decoded@),
            Err(_) => None::<Seq<u8>>,
        },
{
    let mut decoded: Vec<u8> = Vec::new();
    let mut input: &[u8] = stream.as_slice();
    match lzma_rs::lzma_decompress(&mut input, &mut decoded) {
        Ok(()) => Ok(decoded),
        Err(e) => Err(e),
    }
}

/// Formats the decoder's error with its `Debug` impl. Nothing is claimed
/// of the text.
#[verifier::external_body]
fn describe(error: &lzma_rs::error::Error) -> String {
    format!("{:?}", error)
}

/// Checks whether data starts as a container does, and as which kind.
pub fn check_header(data: &[u8]) -> (kind: Option<ContainerKind>)
    ensures
        kind == header_kind(data@),
{
    if data.len() >= 1 && data[0] == 83 {
        Some(ContainerKind::Tex)
    } else if data.len() >= 2 && data[0] == 93 && data[1] == 0 {
        Some(ContainerKind::Csv)
    } else {
        None
    }
}

/// Repairs the header of a compressed stream so that a standard
/// decompressor accepts it.
///
/// Input shorter than the nine header bytes is rejected.
pub fn prepare_stream(raw_data: &[u8]) -> (r: Result<Vec<u8>, DecodeError>)
    ensures
        match r {
            Ok(stream) => raw_data@.len() >= 9 && stream@ == patched(raw_data@),
            Err(e) => raw_data@.len() < 9 && e == DecodeError::TooSmallContainer,
        },
{
    if raw_data.len() < STREAM_HEADER_LEN {
        return Err(DecodeError::TooSmallContainer);
    }
    let mut data: Vec<u8> = Vec::new();
    data.extend_from_slice(slice_subrange(raw_data, 0, STREAM_HEADER_LEN));
    data.push(0);
    data.push(0);
    data.push(0);
    data.push(0);
    data.extend_from_slice(slice_subrange(raw_data, STREAM_HEADER_LEN, raw_data.len()));
    Ok(data)
}

/// Decompresses the stream of a container.
///
/// The stream is first repaired with `prepare_stream`, then handed to the
/// LZMA decoder. A sprite container must have its outer header removed
/// before. The decoder is only run where `usize` has 64 bits; on any other
/// target every stream fails, and the reason says so.
pub fn decompress(raw_data: &[u8]) -> (r: Result<Vec<u8>, DecodeError>)
    ensures
        match r {
            Ok(decoded) => raw_data@.len() >= 9 && decompressed(raw_data@) == Some(decoded@),
            Err(DecodeError::TooSmallContainer) => raw_data@.len() < 9,
            Err(DecodeError::DecompressionFailure(_)) => raw_data@.len() >= 9 && decompressed(
                raw_data@,
            ) is None,
            Err(_) => false,
        },
{
    let stream = match prepare_stream(raw_data) {
        Ok(stream) => stream,
        Err(e) => { return Err(e); },
    };
    if usize::BITS != 64 {
        return Err(
            DecodeError::DecompressionFailure(
                DecompressionError("the decoder needs a 64-bit target".to_owned()),
            ),
        );
    }
    match lzma_decode(&stream) {
        Ok(decoded) => Ok(decoded),
        Err(e) => Err(DecodeError::DecompressionFailure(DecompressionError(describe(&e)))),
    }
}

} // verus!
