//! Container tests: parsing, encoding, and the structural error taxonomy.

use png_glitch::chunk::ChunkType;
use png_glitch::png::Png;
use png_glitch::{PngError, PngGlitch};

/// Serializes one chunk record: big-endian length, tag, payload, CRC.
fn push_chunk(out: &mut Vec<u8>, tag: &[u8; 4], payload: &[u8]) {
    let mut crc = crc32fast::Hasher::new();
    crc.update(tag);
    crc.update(payload);
    let crc = crc.finalize().to_be_bytes();
    out.extend_from_slice(&(payload.len() as u32).to_be_bytes());
    out.extend_from_slice(tag);
    out.extend_from_slice(payload);
    out.extend_from_slice(&crc);
}

/// The 13-byte IHDR payload for the given geometry.
fn ihdr_payload(width: u32, height: u32, bit_depth: u8, color_type: u8) -> Vec<u8> {
    let mut p = vec![];
    p.extend_from_slice(&width.to_be_bytes());
    p.extend_from_slice(&height.to_be_bytes());
    p.push(bit_depth);
    p.push(color_type);
    p.push(0);
    p.push(0);
    p.push(0);
    p
}

/// A complete PNG byte stream holding `decoded` as its decoded buffer.
fn png_bytes(width: u32, height: u32, bit_depth: u8, color_type: u8, decoded: &[u8]) -> Vec<u8> {
    let mut out = vec![0x89, 0x50, 0x4E, 0x47, 0x0D, 0x0A, 0x1A, 0x0A];
    push_chunk(&mut out, b"IHDR", &ihdr_payload(width, height, bit_depth, color_type));
    let compressed = fdeflate::compress_to_vec(decoded);
    push_chunk(&mut out, b"IDAT", &compressed);
    push_chunk(&mut out, b"IEND", &[]);
    out
}

/// A 2-pixel-wide, 2-scanline truecolor-alpha image; scanline width is 9,
/// every scanline tagged with `tag`.
fn sample_decoded(tag: u8) -> Vec<u8> {
    vec![
        tag, 1, 2, 3, 4, 5, 6, 7, 8, // scanline 0
        tag, 9, 10, 11, 12, 13, 14, 15, 16, // scanline 1
    ]
}

fn sample_png(tag: u8) -> Vec<u8> {
    png_bytes(2, 2, 8, 6, &sample_decoded(tag))
}

#[test]
fn test_encode_ihdr() {
    let bytes = sample_png(0);
    let png = Png::parse(&bytes).unwrap();
    let mut buffer = vec![];
    png.header.encode(&mut buffer);
    assert_eq!(&buffer[0..4], &(png.header.inner.length() as u32).to_be_bytes());
    assert_eq!(&buffer[4..8], &ChunkType::IHDR);
    assert_eq!(&buffer[8..21], png.header.inner.data.as_slice());
    assert_eq!(&buffer[21..25], &png.header.inner.crc);
}

#[test]
fn test_encode() {
    let bytes = sample_png(0);
    let png = Png::parse(&bytes).unwrap();
    let mut buffer = vec![];
    png.encode(&mut buffer).unwrap();
    let another = Png::parse(&buffer).unwrap();

    let decoded_data_size = png.decoded_data().len();
    for i in 0..decoded_data_size {
        let decoded_data = png.decoded_data();
        let another_decoded_data = another.decoded_data();
        assert_eq!(decoded_data[i], another_decoded_data[i]);
    }
}

#[test]
fn test_parse_minimal() {
    // a 1x1 truecolor-alpha image: scanline width 5, one scanline
    let decoded = vec![0u8, 61, 62, 63, 64];
    let bytes = png_bytes(1, 1, 8, 6, &decoded);
    let glitch = PngGlitch::new(bytes).unwrap();
    assert_eq!(glitch.scan_lines().len(), 1);
    assert_eq!(glitch.width(), 1);
    assert_eq!(glitch.height(), 1);
}

#[test]
fn test_scan_lines_len_is_height() {
    let glitch = PngGlitch::new(sample_png(1)).unwrap();
    assert_eq!(glitch.scan_lines().len(), glitch.height() as usize);
    assert_eq!(glitch.scan_lines_from(1, 5).len(), 1);
    assert_eq!(glitch.scan_lines_from(7, 5).len(), 0);
}

#[test]
fn test_missing_signature() {
    let mut bytes = sample_png(0);
    bytes[0] = 0;
    assert!(matches!(PngGlitch::new(bytes), Err(PngError::InvalidSignature)));
}

#[test]
fn test_duplicate_ihdr() {
    let mut bytes = vec![0x89, 0x50, 0x4E, 0x47, 0x0D, 0x0A, 0x1A, 0x0A];
    let payload = ihdr_payload(2, 2, 8, 6);
    push_chunk(&mut bytes, b"IHDR", &payload);
    push_chunk(&mut bytes, b"IHDR", &payload);
    let compressed = fdeflate::compress_to_vec(&sample_decoded(0));
    push_chunk(&mut bytes, b"IDAT", &compressed);
    push_chunk(&mut bytes, b"IEND", &[]);
    assert!(matches!(PngGlitch::new(bytes), Err(PngError::DuplicateIHDRFound)));
}

#[test]
fn test_truncated_chunk() {
    let mut bytes = sample_png(0);
    bytes.truncate(14);
    assert!(matches!(PngGlitch::new(bytes), Err(PngError::TooShortInput)));
}

#[test]
fn test_missing_ihdr() {
    let mut bytes = vec![0x89, 0x50, 0x4E, 0x47, 0x0D, 0x0A, 0x1A, 0x0A];
    let compressed = fdeflate::compress_to_vec(&sample_decoded(0));
    push_chunk(&mut bytes, b"IDAT", &compressed);
    push_chunk(&mut bytes, b"IEND", &[]);
    assert!(matches!(PngGlitch::new(bytes), Err(PngError::NoIHDRFound)));
}

#[test]
fn test_missing_iend() {
    let mut bytes = vec![0x89, 0x50, 0x4E, 0x47, 0x0D, 0x0A, 0x1A, 0x0A];
    push_chunk(&mut bytes, b"IHDR", &ihdr_payload(2, 2, 8, 6));
    let compressed = fdeflate::compress_to_vec(&sample_decoded(0));
    push_chunk(&mut bytes, b"IDAT", &compressed);
    assert!(matches!(PngGlitch::new(bytes), Err(PngError::NOIENDFound)));
}

#[test]
fn test_missing_idat() {
    let mut bytes = vec![0x89, 0x50, 0x4E, 0x47, 0x0D, 0x0A, 0x1A, 0x0A];
    push_chunk(&mut bytes, b"IHDR", &ihdr_payload(2, 2, 8, 6));
    push_chunk(&mut bytes, b"IEND", &[]);
    assert!(matches!(PngGlitch::new(bytes), Err(PngError::NoIDATFound)));
}

#[test]
fn test_invalid_color_type() {
    let mut bytes = vec![0x89, 0x50, 0x4E, 0x47, 0x0D, 0x0A, 0x1A, 0x0A];
    push_chunk(&mut bytes, b"IHDR", &ihdr_payload(2, 2, 8, 5));
    let compressed = fdeflate::compress_to_vec(&sample_decoded(0));
    push_chunk(&mut bytes, b"IDAT", &compressed);
    push_chunk(&mut bytes, b"IEND", &[]);
    assert!(matches!(PngGlitch::new(bytes), Err(PngError::InvalidColorType)));
}

#[test]
fn test_invalid_filter_tag() {
    let bytes = sample_png(5);
    assert!(matches!(PngGlitch::new(bytes), Err(PngError::InvalidFilterType)));
}

#[test]
fn test_corrupt_idat() {
    let mut bytes = vec![0x89, 0x50, 0x4E, 0x47, 0x0D, 0x0A, 0x1A, 0x0A];
    push_chunk(&mut bytes, b"IHDR", &ihdr_payload(2, 2, 8, 6));
    push_chunk(&mut bytes, b"IDAT", &[0xFF, 0xFF, 0xFF, 0xFF]);
    push_chunk(&mut bytes, b"IEND", &[]);
    assert!(matches!(PngGlitch::new(bytes), Err(PngError::DeflateFailure)));
}

#[test]
fn test_ancillary_chunks_preserved() {
    let mut bytes = vec![0x89, 0x50, 0x4E, 0x47, 0x0D, 0x0A, 0x1A, 0x0A];
    push_chunk(&mut bytes, b"IHDR", &ihdr_payload(2, 2, 8, 6));
    push_chunk(&mut bytes, b"tEXt", b"comment");
    let compressed = fdeflate::compress_to_vec(&sample_decoded(0));
    push_chunk(&mut bytes, b"IDAT", &compressed);
    push_chunk(&mut bytes, b"IEND", &[]);
    let png = Png::parse(&bytes).unwrap();
    let mut out = vec![];
    png.encode(&mut out).unwrap();
    // the ancillary chunk survives a round trip verbatim
    let again = Png::parse(&out).unwrap();
    assert_eq!(again.misc_chunks.len(), 1);
    assert_eq!(again.misc_chunks[0].data, b"comment".to_vec());
}

#[test]
fn test_encoded_idat_crc_matches() {
    let png = Png::parse(&sample_png(1)).unwrap();
    let mut out = vec![];
    png.encode(&mut out).unwrap();
    // locate the IDAT record: signature (8) + IHDR record (25)
    let idat = &out[33..];
    let len = u32::from_be_bytes([idat[0], idat[1], idat[2], idat[3]]) as usize;
    assert_eq!(&idat[4..8], b"IDAT");
    let mut crc = crc32fast::Hasher::new();
    crc.update(&idat[4..8 + len]);
    let expected = crc.finalize().to_be_bytes();
    assert_eq!(&idat[8 + len..12 + len], &expected);
}

#[test]
fn test_stream_stops_at_iend() {
    let mut bytes = sample_png(0);
    // trailing garbage after IEND is ignored
    bytes.extend_from_slice(&[1, 2, 3]);
    assert!(PngGlitch::new(bytes).is_ok());
}

#[test]
fn test_duplicate_ihdr_after_other_chunks() {
    let mut bytes = vec![0x89, 0x50, 0x4E, 0x47, 0x0D, 0x0A, 0x1A, 0x0A];
    let payload = ihdr_payload(2, 2, 8, 6);
    push_chunk(&mut bytes, b"IHDR", &payload);
    push_chunk(&mut bytes, b"tEXt", b"comment");
    let compressed = fdeflate::compress_to_vec(&sample_decoded(0));
    push_chunk(&mut bytes, b"IDAT", &compressed);
    push_chunk(&mut bytes, b"IHDR", &payload);
    push_chunk(&mut bytes, b"IEND", &[]);
    assert!(matches!(PngGlitch::new(bytes), Err(PngError::DuplicateIHDRFound)));
}
