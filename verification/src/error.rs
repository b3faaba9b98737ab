//! The error taxonomy of the codec: structural parse failures.

use vstd::prelude::*;
use crate::chunk::Chunk;

verus! {

/// A structural failure while parsing or re-encoding a PNG byte stream.
/// Every variant aborts the whole operation; there is no partial recovery.
#[derive(Debug)]
pub enum PngError {
    /// The 8-byte PNG signature is missing.
    InvalidSignature,
    /// The input buffer is shorter than a chunk header, payload or CRC needs.
    TooShortInput,
    /// No IHDR chunk was found.
    NoIHDRFound,
    /// No IEND chunk was found.
    NOIENDFound,
    /// No IDAT chunk was found.
    NoIDATFound,
    /// A second IHDR chunk was found.
    DuplicateIHDRFound,
    /// A second IEND chunk was found.
    DuplicateIENDFound,
    /// A chunk of an unexpected type was handed to a classifier.
    InvalidChunkType(Chunk),
    /// The color-type byte is none of the five known codes.
    InvalidColorType,
    /// A scanline's filter-tag byte is above 4.
    InvalidFilterType,
    /// The consolidated IDAT payload could not be inflated, or the decoded
    /// buffer could not be re-deflated into a single IDAT chunk.
    DeflateFailure,
}

} // verus!
