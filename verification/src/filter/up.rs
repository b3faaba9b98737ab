//! The Up filter: each byte is offset by the byte above it in the previous
//! scanline.

use vstd::prelude::*;
use crate::filter::{
    filter_scan, prev_view, prev_wf, reconstruct_scan, spec_line_applied, spec_line_removed,
};
use crate::filter_type::FilterType;
use crate::scan_line::ScanLine;

verus! {

/// Removes the Up filter from the line's pixel bytes in place.
pub fn remove(data: &mut Vec<u8>, line: &ScanLine, other: Option<&ScanLine>)
    requires
        line.wf_for(old(data)@.len() as int),
        prev_wf(*line, prev_view(other), old(data)@.len() as int),
    ensures
        spec_line_removed(old(data)@, final(data)@, *line, prev_view(other), FilterType::Up),
{
    reconstruct_scan(data, line, other, FilterType::Up)
}

/// Applies the Up filter to the line's pixel bytes in place.
pub fn apply(data: &mut Vec<u8>, line: &ScanLine, previous: Option<&ScanLine>)
    requires
        line.wf_for(old(data)@.len() as int),
        prev_wf(*line, prev_view(previous), old(data)@.len() as int),
    ensures
        spec_line_applied(old(data)@, final(data)@, *line, prev_view(previous), FilterType::Up),
{
    filter_scan(data, line, previous, FilterType::Up)
}

} // verus!
