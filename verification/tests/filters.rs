//! Filter engine tests: per-filter round trips over full scanlines,
//! first-scanline and first-pixel edge cases, region passes, and span
//! transposition.

use png_glitch::filter::{average, paeth, sub, up};
use png_glitch::filter::byte::{add_without_overflow, sub_without_overflow};
use png_glitch::{ColorType, FilterType, PngGlitch, ScanLine};

fn push_chunk(out: &mut Vec<u8>, tag: &[u8; 4], payload: &[u8]) {
    let mut crc = crc32fast::Hasher::new();
    crc.update(tag);
    crc.update(payload);
    let crc = crc.finalize().to_be_bytes();
    out.extend_from_slice(&(payload.len() as u32).to_be_bytes());
    out.extend_from_slice(tag);
    out.extend_from_slice(payload);
    out.extend_from_slice(&crc);
}

/// A complete PNG byte stream holding `decoded` as its decoded buffer.
fn png_bytes(width: u32, height: u32, decoded: &[u8]) -> Vec<u8> {
    let mut out = vec![0x89, 0x50, 0x4E, 0x47, 0x0D, 0x0A, 0x1A, 0x0A];
    let mut ihdr = vec![];
    ihdr.extend_from_slice(&width.to_be_bytes());
    ihdr.extend_from_slice(&height.to_be_bytes());
    ihdr.extend_from_slice(&[8, 6, 0, 0, 0]);
    push_chunk(&mut out, b"IHDR", &ihdr);
    let compressed = fdeflate::compress_to_vec(decoded);
    push_chunk(&mut out, b"IDAT", &compressed);
    push_chunk(&mut out, b"IEND", &[]);
    out
}

#[test]
fn test_unit() {
    let original = vec![1, 0, 1, 2, 255, 1, 1, 1, 255];
    let mut target = original.clone();
    let scanline = ScanLine::new(FilterType::Sub, 0, original.len(), ColorType::TrueColorAlpha, 8);
    sub::apply(&mut target, &scanline);
    sub::remove(&mut target, &scanline);
    for (before, after) in original.iter().zip(target.iter()) {
        assert_eq!(before, after);
    }
}

#[test]
fn test_byte_arithmetic() {
    assert_eq!(add_without_overflow(200, 100), 44);
    assert_eq!(sub_without_overflow(44, 100), 200);
    assert_eq!(add_without_overflow(0, 0), 0);
    assert_eq!(sub_without_overflow(0, 1), 255);
    assert_eq!(paeth::predict(3, 3, 3), 3);
    assert_eq!(paeth::predict(10, 20, 25), 10);
    assert_eq!(paeth::predict(100, 5, 5), 100);
    assert_eq!(paeth::predict(5, 100, 5), 100);
    assert_eq!(paeth::predict(10, 20, 15), 15);
    assert_eq!(average::recon(10, 4, 7), 15);
    assert_eq!(average::filter(15, 4, 7), 10);
    assert_eq!(paeth::recon(10, 1, 2, 3), 11);
    assert_eq!(paeth::filter(10, 1, 2, 3), 9);
}

/// Two aliasing views over one buffer: the second scanline transformed
/// against the first, for every filter type, both directions.
#[test]
fn test_roundtrip_all_filters_with_previous() {
    let original: Vec<u8> = vec![
        0, 7, 250, 3, 9, 128, 64, 1, 200, // scanline 0 (the causal neighbor)
        0, 13, 255, 0, 77, 31, 254, 8, 99, // scanline 1
    ];
    let prev = ScanLine::new(FilterType::NoFilter, 0, 9, ColorType::TrueColorAlpha, 8);
    let line = ScanLine::new(FilterType::NoFilter, 9, 18, ColorType::TrueColorAlpha, 8);
    for tag in 0u8..5 {
        let ft = FilterType::from_u8(tag).unwrap();
        let mut data = original.clone();
        let mut view = line;
        view.apply_filter(&mut data, ft, Some(&prev));
        assert_eq!(data[9], tag);
        let mut view2 = ScanLine::new(ft, 9, 18, ColorType::TrueColorAlpha, 8);
        view2.remove_filter(&mut data, Some(&prev));
        assert_eq!(data[9], 0);
        assert_eq!(&data[10..], &original[10..]);
        assert_eq!(&data[..9], &original[..9]);
    }
}

/// The first scanline of an image: every absent up neighbor reads as 0.
#[test]
fn test_roundtrip_all_filters_first_scanline() {
    let original: Vec<u8> = vec![0, 13, 255, 0, 77, 31, 254, 8, 99];
    let line = ScanLine::new(FilterType::NoFilter, 0, 9, ColorType::TrueColorAlpha, 8);
    for tag in 0u8..5 {
        let ft = FilterType::from_u8(tag).unwrap();
        let mut data = original.clone();
        let mut view = line;
        view.apply_filter(&mut data, ft, None);
        let mut view2 = ScanLine::new(ft, 0, 9, ColorType::TrueColorAlpha, 8);
        view2.remove_filter(&mut data, None);
        assert_eq!(&data[1..], &original[1..]);
    }
}

/// One exact Up-filter pass: each byte is offset by the byte above it.
#[test]
fn test_up_filter_exact() {
    let mut data: Vec<u8> = vec![
        0, 10, 20, 30, 40, 50, 60, 70, 80, // scanline 0
        2, 11, 22, 33, 44, 55, 66, 77, 88, // scanline 1, tagged Up
    ];
    let prev = ScanLine::new(FilterType::NoFilter, 0, 9, ColorType::TrueColorAlpha, 8);
    let line = ScanLine::new(FilterType::Up, 9, 18, ColorType::TrueColorAlpha, 8);
    up::remove(&mut data, &line, Some(&prev));
    assert_eq!(&data[10..], &[21, 42, 63, 84, 105, 126, 147, 168]);
    up::apply(&mut data, &line, Some(&prev));
    assert_eq!(&data[10..], &[11, 22, 33, 44, 55, 66, 77, 88]);
}

/// One exact Sub-filter reconstruction: each byte is offset by the byte one
/// pixel to its left, 0 before the first pixel.
#[test]
fn test_sub_filter_exact() {
    let mut data: Vec<u8> = vec![1, 10, 20, 30, 40, 50, 60, 70, 80];
    let line = ScanLine::new(FilterType::Sub, 0, 9, ColorType::TrueColorAlpha, 8);
    sub::remove(&mut data, &line);
    assert_eq!(&data[1..], &[10, 20, 30, 40, 60, 80, 100, 120]);
}

/// Removing all filters and then applying the original one restores the
/// decoded buffer exactly.
#[test]
fn test_remove_then_apply_restores() {
    let decoded: Vec<u8> = vec![
        2, 1, 2, 3, 4, 5, 6, 7, 8, // scanline 0, tagged Up
        2, 8, 7, 6, 5, 4, 3, 2, 1, // scanline 1, tagged Up
    ];
    let mut glitch = PngGlitch::new(png_bytes(2, 2, &decoded)).unwrap();
    glitch.remove_filter();
    glitch.apply_filter(FilterType::Up);
    assert_eq!(glitch.png.decoded_data(), &decoded);
}

/// A partial region pass: only the chosen span changes, and a second pass
/// with the original filter restores it.
#[test]
fn test_remove_then_apply_restores_partial() {
    let decoded: Vec<u8> = vec![
        4, 1, 2, 3, 4, 5, 6, 7, 8, // scanline 0
        4, 8, 7, 6, 5, 4, 3, 2, 1, // scanline 1
        4, 9, 9, 9, 9, 9, 9, 9, 9, // scanline 2
    ];
    let mut glitch = PngGlitch::new(png_bytes(2, 3, &decoded)).unwrap();
    glitch.remove_filter_from(1, 1);
    assert_eq!(&glitch.png.decoded_data()[0..9], &decoded[0..9]);
    assert_eq!(&glitch.png.decoded_data()[18..], &decoded[18..]);
    glitch.apply_filter_from(FilterType::Paeth, 1, 1);
    assert_eq!(glitch.png.decoded_data(), &decoded);
}

/// Transposing disjoint spans twice restores the buffer.
#[test]
fn test_transpose_involution() {
    let decoded: Vec<u8> = vec![
        0, 1, 2, 3, 4, 5, 6, 7, 8, // scanline 0
        1, 8, 7, 6, 5, 4, 3, 2, 1, // scanline 1
        2, 9, 8, 9, 8, 9, 8, 9, 8, // scanline 2
    ];
    let mut glitch = PngGlitch::new(png_bytes(2, 3, &decoded)).unwrap();
    glitch.transpose(0, 2, 1);
    assert_eq!(&glitch.png.decoded_data()[18..], &decoded[0..9]);
    assert_eq!(&glitch.png.decoded_data()[0..9], &decoded[18..]);
    assert_eq!(&glitch.png.decoded_data()[9..18], &decoded[9..18]);
    glitch.transpose(2, 0, 1);
    assert_eq!(glitch.png.decoded_data(), &decoded);
}

/// The per-scanline callback: reads a pixel byte, rewrites it, and retags
/// the scanline, through the iterate-with-callback surface.
#[test]
fn test_foreach_scanline() {
    let decoded: Vec<u8> = vec![
        0, 8, 2, 3, 4, 5, 6, 7, 8, // scanline 0
        1, 16, 7, 6, 5, 4, 3, 2, 1, // scanline 1
    ];
    let mut glitch = PngGlitch::new(png_bytes(2, 2, &decoded)).unwrap();
    glitch.foreach_scanline(|_line, bytes| {
        let mut bytes = bytes;
        let pixel = bytes[0];
        bytes[0] = pixel / 2;
        (FilterType::NoFilter, bytes)
    });
    assert_eq!(glitch.png.decoded_data()[0], 0);
    assert_eq!(glitch.png.decoded_data()[1], 4);
    assert_eq!(glitch.png.decoded_data()[9], 0);
    assert_eq!(glitch.png.decoded_data()[10], 8);
    assert_eq!(&glitch.png.decoded_data()[2..9], &decoded[2..9]);
}
