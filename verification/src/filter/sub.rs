//! The Sub filter: each byte is offset by the byte one pixel to its left.

use vstd::prelude::*;
use crate::filter::{filter_scan, reconstruct_scan, spec_line_applied, spec_line_removed};
use crate::filter_type::FilterType;
use crate::scan_line::ScanLine;

verus! {

/// Applies the Sub filter to the line's pixel bytes in place.
pub fn apply(data: &mut Vec<u8>, line: &ScanLine)
    requires
        line.wf_for(old(data)@.len() as int),
    ensures
        spec_line_applied(old(data)@, final(data)@, *line, Option::None, FilterType::Sub),
{
    filter_scan(data, line, Option::None, FilterType::Sub)
}

/// Removes the Sub filter from the line's pixel bytes in place.
pub fn remove(data: &mut Vec<u8>, line: &ScanLine)
    requires
        line.wf_for(old(data)@.len() as int),
    ensures
        spec_line_removed(old(data)@, final(data)@, *line, Option::None, FilterType::Sub),
{
    reconstruct_scan(data, line, Option::None, FilterType::Sub)
}

} // verus!
