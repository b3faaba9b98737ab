//! Scanline view tests: bounds-checked access and sequential reads and
//! writes over the pixel-data sub-range.

use png_glitch::{ColorType, FilterType, ScanLine};

/// A scanline view over the whole 6-byte test buffer.
fn scan_line() -> ScanLine {
    ScanLine::new(FilterType::NoFilter, 0, 6, ColorType::TrueColorAlpha, 8)
}

fn buffer() -> Vec<u8> {
    vec![0, 1, 2, 3, 4, 5]
}

#[test]
fn test_index() {
    let data = buffer();
    let scan_line = scan_line();

    assert_eq!(scan_line.index(&data, 0).unwrap(), data[1]);
}

#[test]
fn test_index_mut() {
    let mut data = buffer();
    let scan_line = scan_line();

    scan_line.update(&mut data, 0, 10);

    assert_eq!(scan_line.index(&data, 0).unwrap(), data[1]);
}

#[test]
fn test_read() {
    let data = buffer();
    let scan_line = scan_line();

    let mut buffer = vec![0; scan_line.size()];

    let result = scan_line.read(&data, &mut buffer);
    assert_eq!(result, scan_line.size());
    assert_eq!(scan_line.size(), buffer.len());
    assert_eq!(&data[1..], &buffer[..]);
}

#[test]
fn test_read_to_end() {
    let data = buffer();
    let scan_line = scan_line();

    let mut buffer = vec![];

    let size = scan_line.size();
    let result = scan_line.read_to_end(&data, &mut buffer);
    assert_eq!(result, size);
    assert_eq!(&data[1..], &buffer[0..size]);
}

#[test]
fn test_write() {
    let mut data = buffer();
    let scan_line = scan_line();
    let size = scan_line.size();

    let buffer = vec![10; size];
    let result = scan_line.write(&mut data, &buffer);
    assert_eq!(buffer.len(), result);
    assert_eq!(&buffer[..], &data[1..]);
}

#[test]
fn test_index_out_of_range() {
    let data = buffer();
    let scan_line = scan_line();
    assert_eq!(scan_line.index(&data, 5), None);
}

#[test]
fn test_update_out_of_range_is_ignored() {
    let mut data = buffer();
    let scan_line = scan_line();
    scan_line.update(&mut data, 5, 99);
    assert_eq!(data, buffer());
}

#[test]
fn test_set_filter_type_writes_tag() {
    let mut data = buffer();
    let mut scan_line = scan_line();
    scan_line.set_filter_type(&mut data, FilterType::Paeth);
    assert_eq!(data[0], 4);
    assert!(matches!(scan_line.filter_type(), FilterType::Paeth));
}

#[test]
fn test_geometry() {
    let scan_line = scan_line();
    assert_eq!(scan_line.size(), 5);
    assert_eq!(scan_line.bytes_per_pixel(), 4);
    assert_eq!(ColorType::GrayScale.bit_per_pixel(8), 8);
    assert_eq!(ColorType::TrueColor.bit_per_pixel(16), 48);
    assert_eq!(ColorType::GrayScaleAlpha.bit_per_pixel(8), 16);
    assert_eq!(ColorType::TrueColorAlpha.bit_per_pixel(8), 32);
    assert_eq!(ColorType::IndexColor.bit_per_pixel(4), 4);
}
