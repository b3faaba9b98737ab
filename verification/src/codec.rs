//! The compression and checksum calls the codec leans on: zlib deflate and
//! inflate from `fdeflate`, and CRC-32 from `crc32fast`. Their outputs are
//! functions of their inputs alone, named here and otherwise left opaque.

use vstd::prelude::*;

verus! {

/// The zlib stream that `fdeflate`'s compressor produces for the given bytes.
pub uninterp spec fn spec_deflate(src: Seq<u8>) -> Seq<u8>;

/// What one `fdeflate` decompressor pass over `src` leaves in a zeroed output
/// buffer of `n` bytes: the decompressed bytes (truncated or zero-padded to
/// `n`), or nothing when the stream is rejected.
pub uninterp spec fn spec_inflate(src: Seq<u8>, n: nat) -> Option<Seq<u8>>;

/// The CRC-32 (IEEE) checksum of the given bytes.
pub uninterp spec fn spec_crc32(bytes: Seq<u8>) -> u32;

/// Relies on fdeflate's `Compressor::new`, `write_data` and `finish` with a
/// `Vec<u8>` writer: they emit a fixed zlib header, the compressed bytes and
/// an Adler-32 trailer, a function of the input bytes alone, and writes into
/// a `Vec` cannot fail. The header alone makes the stream non-empty. By the
/// crates' documented round trip, one `Decompressor` pass over that stream
/// with an output buffer of exactly the input's length restores the input.
/// The compressor counts runs of zero bytes in 32 bits, so an input long
/// enough to hold a longer run is kept out.
#[verifier::external_body]
pub(crate) fn deflate(src: &Vec<u8>) -> (r: Vec<u8>)
    requires
        src@.len() <= u32::MAX,
    ensures
        r@ == spec_deflate(src@),
        r@.len() > 0,
        spec_inflate(r@, src@.len()) == Some(src@),
{
    let mut encoder = fdeflate::Compressor::new(Vec::new()).unwrap();
    encoder.write_data(src.as_slice()).unwrap();
    encoder.finish().unwrap()
}

/// Relies on fdeflate's `Decompressor::read`: one pass over the whole input,
/// with the end of the input marked, fills a zeroed `n`-byte buffer with the
/// decompressed bytes and rejects invalid streams; the outcome depends on
/// the input and `n` alone.
#[verifier::external_body]
pub(crate) fn inflate(src: &Vec<u8>, n: usize) -> (r: Option<Vec<u8>>)
    ensures
        r is Some <==> spec_inflate(src@, n as nat) is Some,
        r matches Some(v) ==> Some(v@) == spec_inflate(src@, n as nat) && v@.len() == n,
{
    let mut decompressor = fdeflate::Decompressor::new();
    let mut buffer = vec![0u8; n];
    match decompressor.read(src.as_slice(), &mut buffer, 0, true) {
        Ok(_) => Some(buffer),
        Err(_) => Option::None,
    }
}

/// Relies on crc32fast's `Hasher::new`, `update` and `finalize`: they compute
/// the CRC-32 (IEEE) checksum of the bytes, a function of the bytes alone.
#[verifier::external_body]
pub(crate) fn crc32(bytes: &Vec<u8>) -> (r: u32)
    ensures
        r == spec_crc32(bytes@),
{
    let mut hasher = crc32fast::Hasher::new();
    hasher.update(bytes.as_slice());
    hasher.finalize()
}

} // verus!
