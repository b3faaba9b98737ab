//! The Paeth filter: each byte is offset by the neighbor closest to the
//! Paeth prediction `left + up - upleft`.

use vstd::prelude::*;
use crate::filter::{
    filter_scan, prev_view, prev_wf, reconstruct_scan, spec_line_applied, spec_line_removed,
    spec_paeth_predict, spec_recon_byte, spec_filt_byte,
};
use crate::filter::byte::{add_without_overflow, sub_without_overflow};
use crate::filter_type::FilterType;
use crate::scan_line::ScanLine;

verus! {

/// Removes the Paeth filter from the line's pixel bytes in place.
pub fn remove(data: &mut Vec<u8>, line: &ScanLine, previous: Option<&ScanLine>)
    requires
        line.wf_for(old(data)@.len() as int),
        prev_wf(*line, prev_view(previous), old(data)@.len() as int),
    ensures
        spec_line_removed(old(data)@, final(data)@, *line, prev_view(previous), FilterType::Paeth),
{
    reconstruct_scan(data, line, previous, FilterType::Paeth)
}

/// Applies the Paeth filter to the line's pixel bytes in place.
pub fn apply(data: &mut Vec<u8>, line: &ScanLine, previous: Option<&ScanLine>)
    requires
        line.wf_for(old(data)@.len() as int),
        prev_wf(*line, prev_view(previous), old(data)@.len() as int),
    ensures
        spec_line_applied(old(data)@, final(data)@, *line, prev_view(previous), FilterType::Paeth),
{
    filter_scan(data, line, previous, FilterType::Paeth)
}

/// Reconstructs one byte: adds the Paeth prediction of its neighbors.
pub fn recon(current: u8, left: u8, top: u8, top_left: u8) -> (r: u8)
    ensures
        r == spec_recon_byte(FilterType::Paeth, current, left, top, top_left),
{
    let p = predict(left, top, top_left);
    add_without_overflow(current, p)
}

/// Filters one byte: subtracts the Paeth prediction of its neighbors.
pub fn filter(current: u8, left: u8, top: u8, top_left: u8) -> (r: u8)
    ensures
        r == spec_filt_byte(FilterType::Paeth, current, left, top, top_left),
{
    let p = predict(left, top, top_left);
    sub_without_overflow(current, p)
}

/// The Paeth predictor: of the three neighbors, the one closest to
/// `a + b - c`, ties resolved toward `a`, then `b`, then `c`.
pub fn predict(a: u8, b: u8, c: u8) -> (r: u8)
    ensures
        r == spec_paeth_predict(a, b, c),
{
    let a16 = a as i16;
    let b16 = b as i16;
    let c16 = c as i16;
    let p = a16 + b16 - c16;
    let pa = if p >= a16 {
        p - a16
    } else {
        a16 - p
    };
    let pb = if p >= b16 {
        p - b16
    } else {
        b16 - p
    };
    let pc = if p >= c16 {
        p - c16
    } else {
        c16 - p
    };
    if pa <= pb && pa <= pc {
        a
    } else if pb <= pc {
        b
    } else {
        c
    }
}

} // verus!
