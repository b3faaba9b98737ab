//! Byte-level helpers of the filter engine: modular arithmetic and
//! bounds-checked neighbor reads, where every absent neighbor reads as 0.

use vstd::prelude::*;
use crate::filter::{prev_view, spec_add_mod, spec_sub_mod};
use crate::scan_line::ScanLine;

verus! {

/// Adds two bytes modulo 256.
pub fn add_without_overflow(a: u8, b: u8) -> (r: u8)
    ensures
        r == spec_add_mod(a, b),
{
    (((a as u16) + (b as u16)) % 256) as u8
}

/// Subtracts two bytes modulo 256.
pub fn sub_without_overflow(a: u8, b: u8) -> (r: u8)
    ensures
        r == spec_sub_mod(a, b),
{
    (((a as u16) + 256 - (b as u16)) % 256) as u8
}

/// The byte at buffer index `index`, or 0 when the index is outside the
/// line's pixel-data range.
pub fn byte_at(data: &Vec<u8>, line: &ScanLine, index: usize) -> (r: u8)
    requires
        line.wf_for(data@.len() as int),
    ensures
        r == if line.start + 1 <= index < line.end {
            data@[index as int]
        } else {
            0u8
        },
{
    if line.start + 1 <= index && index < line.end {
        data[index]
    } else {
        0
    }
}

/// The byte at offset `offset` of the pixel starting at buffer index
/// `index`, or 0 outside the line's pixel-data range.
pub fn byte_in_pixel(data: &Vec<u8>, line: &ScanLine, index: usize, offset: usize) -> (r: u8)
    requires
        line.wf_for(data@.len() as int),
        index + offset <= usize::MAX,
    ensures
        r == if line.start + 1 <= index + offset < line.end {
            data@[index + offset]
        } else {
            0u8
        },
{
    byte_at(data, line, index + offset)
}

/// The byte one pixel to the left of buffer index `index + offset`, or 0
/// when that byte lies before the line's first pixel.
pub fn byte_in_previous_pixel(
    data: &Vec<u8>,
    line: &ScanLine,
    index: usize,
    offset: usize,
    bpp: usize,
) -> (r: u8)
    requires
        line.wf_for(data@.len() as int),
        index + offset <= usize::MAX,
    ensures
        r == if index + offset >= bpp && line.start + 1 <= index + offset - bpp < line.end {
            data@[index + offset - bpp]
        } else {
            0u8
        },
{
    let idx = index + offset;
    if idx < bpp {
        0
    } else {
        byte_at(data, line, idx - bpp)
    }
}

/// The byte at pixel-relative offset `index + offset` of the previous
/// scanline, or 0 without one or outside its pixel-data range.
pub fn byte_in_previous_line(data: &Vec<u8>, line: Option<&ScanLine>, index: usize, offset: usize) -> (r:
    u8)
    requires
        match prev_view(line) {
            Some(p) => p.start < p.end <= data@.len(),
            None => true,
        },
    ensures
        r == match prev_view(line) {
            Some(p) => {
                if index + offset < p.end - p.start - 1 {
                    data@[p.start + 1 + index + offset]
                } else {
                    0u8
                }
            },
            None => 0u8,
        },
{
    match line {
        Some(p) => {
            let cap = p.end - (p.start + 1);
            if index < cap && offset < cap - index {
                data[p.start + 1 + index + offset]
            } else {
                0
            }
        },
        Option::None => 0,
    }
}

/// The byte one pixel to the left of pixel-relative offset `index + offset`
/// of the previous scanline, or 0 when either neighbor is unavailable.
pub fn byte_in_previous_pixel_in_previous_line(
    data: &Vec<u8>,
    line: Option<&ScanLine>,
    index: usize,
    offset: usize,
    bpp: usize,
) -> (r: u8)
    requires
        match prev_view(line) {
            Some(p) => p.start < p.end <= data@.len(),
            None => true,
        },
    ensures
        r == if index >= bpp {
            match prev_view(line) {
                Some(p) => {
                    if index - bpp + offset < p.end - p.start - 1 {
                        data@[p.start + 1 + index - bpp + offset]
                    } else {
                        0u8
                    }
                },
                None => 0u8,
            }
        } else {
            0u8
        },
{
    if index < bpp {
        0
    } else {
        byte_in_previous_line(data, line, index - bpp, offset)
    }
}

} // verus!
