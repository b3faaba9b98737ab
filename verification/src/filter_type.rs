//! The filter tag stored in the first byte of every scanline.

use vstd::prelude::*;

verus! {

/// The filter method applied to one scanline, identified by the tag byte
/// (0 = None, 1 = Sub, 2 = Up, 3 = Average, 4 = Paeth).
#[derive(Clone, Copy, Debug, PartialEq, Eq, Structural)]
pub enum FilterType {
    /// No filter.
    NoFilter,
    /// Sub filter.
    Sub,
    /// Up filter.
    Up,
    /// Average filter.
    Average,
    /// Paeth filter.
    Paeth,
}

/// The tag byte that encodes a filter type.
pub open spec fn spec_filter_code(ft: FilterType) -> u8 {
    match ft {
        FilterType::NoFilter => 0,
        FilterType::Sub => 1,
        FilterType::Up => 2,
        FilterType::Average => 3,
        FilterType::Paeth => 4,
    }
}

/// The filter type encoded by a valid tag byte (at most 4).
pub open spec fn spec_filter_of_code(value: u8) -> FilterType {
    if value == 0 {
        FilterType::NoFilter
    } else if value == 1 {
        FilterType::Sub
    } else if value == 2 {
        FilterType::Up
    } else if value == 3 {
        FilterType::Average
    } else {
        FilterType::Paeth
    }
}

impl FilterType {
    /// Decodes a tag byte; tag bytes above 4 identify no filter.
    pub fn from_u8(value: u8) -> (r: Option<FilterType>)
        ensures
            r is Some <==> value <= 4,
            value <= 4 ==> r == Some(spec_filter_of_code(value)),
    {
        match value {
            0 => Some(FilterType::NoFilter),
            1 => Some(FilterType::Sub),
            2 => Some(FilterType::Up),
            3 => Some(FilterType::Average),
            4 => Some(FilterType::Paeth),
            _ => Option::None,
        }
    }

    /// Encodes the filter type as its tag byte.
    pub fn as_u8(self) -> (r: u8)
        ensures
            r == spec_filter_code(self),
    {
        match self {
            FilterType::NoFilter => 0,
            FilterType::Sub => 1,
            FilterType::Up => 2,
            FilterType::Average => 3,
            FilterType::Paeth => 4,
        }
    }
}

} // verus!
