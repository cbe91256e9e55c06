//! Compressed tables: containers that are only decompressed and passed on
//! as they are.

use crate::container::{decompress, decompressed};
use crate::errors::DecodeError;
use vstd::prelude::*;

verus! {

/// Processes raw, compressed `.csv` file data.
///
/// The data must be the compressed container as it is stored. The result
/// is the table's text as bytes, ready to be written out unchanged.
pub fn process_csv(data: &[u8]) -> (r: Result<Vec<u8>, DecodeError>)
    ensures
        match r {
            Ok(table) => data@.len() >= 9 && decompressed(data@) == Some(table@),
            Err(DecodeError::TooSmallContainer) => data@.len() < 9,
            Err(DecodeError::DecompressionFailure(_)) => data@.len() >= 9 && decompressed(data@)
                is None,
            Err(_) => false,
        },
{
    decompress(data)
}

} // verus!
