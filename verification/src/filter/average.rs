//! The Average filter: each byte is offset by the floor of the mean of its
//! left and up neighbors.

use vstd::prelude::*;
use crate::filter::{
    filter_scan, prev_view, prev_wf, reconstruct_scan, spec_add_mod, spec_average,
    spec_line_applied, spec_line_removed, spec_sub_mod,
};
use crate::filter::byte::{add_without_overflow, sub_without_overflow};
use crate::filter_type::FilterType;
use crate::scan_line::ScanLine;

verus! {

/// Removes the Average filter from the line's pixel bytes in place.
pub fn remove(data: &mut Vec<u8>, line: &ScanLine, previous: Option<&ScanLine>)
    requires
        line.wf_for(old(data)@.len() as int),
        prev_wf(*line, prev_view(previous), old(data)@.len() as int),
    ensures
        spec_line_removed(old(data)@, final(data)@, *line, prev_view(previous), FilterType::Average),
{
    reconstruct_scan(data, line, previous, FilterType::Average)
}

/// Applies the Average filter to the line's pixel bytes in place.
pub fn apply(data: &mut Vec<u8>, line: &ScanLine, previous: Option<&ScanLine>)
    requires
        line.wf_for(old(data)@.len() as int),
        prev_wf(*line, prev_view(previous), old(data)@.len() as int),
    ensures
        spec_line_applied(old(data)@, final(data)@, *line, prev_view(previous), FilterType::Average),
{
    filter_scan(data, line, previous, FilterType::Average)
}

/// Reconstructs one byte: adds the floor-average of the two neighbors.
pub fn recon(current: u8, left: u8, previous: u8) -> (r: u8)
    ensures
        r == spec_add_mod(current, spec_average(left, previous)),
{
    let average = ((((left as u16) + (previous as u16)) / 2) % 256) as u8;
    add_without_overflow(current, average)
}

/// Filters one byte: subtracts the floor-average of the two neighbors.
pub fn filter(current: u8, left: u8, previous: u8) -> (r: u8)
    ensures
        r == spec_sub_mod(current, spec_average(left, previous)),
{
    let average = ((((left as u16) + (previous as u16)) / 2) % 256) as u8;
    sub_without_overflow(current, average)
}

} // verus!
