//! The filter engine: the five PNG scanline filters and their inverses.
//!
//! Reconstruction (removing a filter) walks a scanline left to right, so each
//! reconstructed byte feeds the "left" neighbor of the next; filtering
//! (applying a filter) walks right to left, so every neighbor it reads still
//! holds the raw sample. Both transforms work byte by byte modulo 256.

use vstd::prelude::*;
use crate::filter_type::FilterType;
use crate::scan_line::{ScanLine, spec_bytes_per_pixel};

pub mod average;
pub mod byte;
pub mod paeth;
pub mod sub;
pub mod up;

verus! {

/// Byte addition modulo 256.
pub open spec fn spec_add_mod(a: u8, b: u8) -> u8 {
    ((a + b) % 256) as u8
}

/// Byte subtraction modulo 256.
pub open spec fn spec_sub_mod(a: u8, b: u8) -> u8 {
    ((a + 256 - b) % 256) as u8
}

/// The Average filter's predictor: the floor of the mean of the left and up
/// neighbors.
pub open spec fn spec_average(left: u8, up: u8) -> u8 {
    ((left + up) / 2) as u8
}

/// The Paeth predictor: of the three neighbors, the one closest to
/// `left + up - upleft`, ties resolved left, then up, then upleft.
pub open spec fn spec_paeth_predict(a: u8, b: u8, c: u8) -> u8 {
    let p = a + b - c;
    let pa = if p >= a {
        p - a
    } else {
        a - p
    };
    let pb = if p >= b {
        p - b
    } else {
        b - p
    };
    let pc = if p >= c {
        p - c
    } else {
        c - p
    };
    if pa <= pb && pa <= pc {
        a
    } else if pb <= pc {
        b
    } else {
        c
    }
}

/// The value a filter predicts for one byte from its three neighbors.
pub open spec fn spec_predictor(ft: FilterType, left: u8, up: u8, upleft: u8) -> u8 {
    match ft {
        FilterType::NoFilter => 0,
        FilterType::Sub => left,
        FilterType::Up => up,
        FilterType::Average => spec_average(left, up),
        FilterType::Paeth => spec_paeth_predict(left, up, upleft),
    }
}

/// Reconstructing one byte: the stored byte plus the predictor, modulo 256.
pub open spec fn spec_recon_byte(ft: FilterType, x: u8, left: u8, up: u8, upleft: u8) -> u8 {
    spec_add_mod(x, spec_predictor(ft, left, up, upleft))
}

/// Filtering one byte: the raw byte minus the predictor, modulo 256.
pub open spec fn spec_filt_byte(ft: FilterType, x: u8, left: u8, up: u8, upleft: u8) -> u8 {
    spec_sub_mod(x, spec_predictor(ft, left, up, upleft))
}

/// Adding and subtracting the same predictor modulo 256 cancel out.
pub proof fn lemma_add_sub_mod(x: u8, p: u8)
    ensures
        spec_sub_mod(spec_add_mod(x, p), p) == x,
        spec_add_mod(spec_sub_mod(x, p), p) == x,
{
    if x + p < 256 {
        assert((x + p) % 256 == x + p);
    } else {
        assert((x + p) % 256 == x + p - 256);
    }
    if x + 256 - p < 256 {
        assert((x + 256 - p) % 256 == x + 256 - p);
    } else {
        assert((x + 256 - p) % 256 == x - p);
    }
}

/// Filtering a reconstructed byte, or reconstructing a filtered byte, with
/// the same neighbors gives back the byte.
pub proof fn lemma_byte_roundtrip(ft: FilterType, x: u8, left: u8, up: u8, upleft: u8)
    ensures
        spec_filt_byte(ft, spec_recon_byte(ft, x, left, up, upleft), left, up, upleft) == x,
        spec_recon_byte(ft, spec_filt_byte(ft, x, left, up, upleft), left, up, upleft) == x,
{
    lemma_add_sub_mod(x, spec_predictor(ft, left, up, upleft));
}

/// The scanline views that `previous` refers to, as a value.
pub open spec fn prev_view(previous: Option<&ScanLine>) -> Option<ScanLine> {
    match previous {
        Some(p) => Some(*p),
        Option::None => Option::None,
    }
}

/// The previous view, if any, is a window into the buffer that does not
/// overlap the line being transformed.
pub open spec fn prev_wf(line: ScanLine, prev: Option<ScanLine>, data_len: int) -> bool {
    match prev {
        Option::None => true,
        Some(p) => {
            &&& p.start < p.end <= data_len
            &&& (p.end <= line.start || line.end <= p.start)
        },
    }
}

/// The "left" neighbor of byte `i` of the line: the already-transformed byte
/// one pixel earlier, or 0 before the line's first pixel.
pub open spec fn spec_left(data: Seq<u8>, line: ScanLine, i: int, bpp: int) -> u8 {
    if i >= bpp && line.start + 1 <= i - bpp < line.end {
        data[i - bpp]
    } else {
        0
    }
}

/// The "up" neighbor of byte `i` of the line: the byte at the same offset in
/// the previous scanline, or 0 without one.
pub open spec fn spec_up(data: Seq<u8>, line: ScanLine, prev: Option<ScanLine>, i: int) -> u8 {
    match prev {
        Option::None => 0,
        Some(p) => {
            let rel = i - (line.start + 1);
            if rel < p.end - p.start - 1 {
                data[p.start + 1 + rel]
            } else {
                0
            }
        },
    }
}

/// The "up-left" neighbor of byte `i` of the line: the up neighbor shifted
/// one pixel left, or 0 when either is unavailable.
pub open spec fn spec_upleft(
    data: Seq<u8>,
    line: ScanLine,
    prev: Option<ScanLine>,
    i: int,
    bpp: int,
) -> u8 {
    if i - (line.start + 1) >= bpp {
        spec_up(data, line, prev, i - bpp)
    } else {
        0
    }
}

/// How a reconstructed (filter-removed) line relates to the line it came
/// from: only the pixel bytes change, and each equals the stored byte plus
/// the predictor over the already-reconstructed left neighbor and the
/// previous line's raw bytes.
pub open spec fn spec_line_removed(
    a: Seq<u8>,
    b: Seq<u8>,
    line: ScanLine,
    prev: Option<ScanLine>,
    ft: FilterType,
) -> bool {
    let bpp = spec_bytes_per_pixel(line.color_type, line.bit_depth);
    &&& b.len() == a.len()
    &&& (forall|i: int|
        0 <= i < a.len() && !(line.start + 1 <= i < line.end) ==> b[i] == a[i])
    &&& (forall|i: int|
        line.start + 1 <= i < line.end ==> b[i] == spec_recon_byte(
            ft,
            a[i],
            spec_left(b, line, i, bpp),
            spec_up(a, line, prev, i),
            spec_upleft(a, line, prev, i, bpp),
        ))
}

/// How a filtered line relates to the line it came from: only the pixel
/// bytes change, and each equals the raw byte minus the predictor over the
/// raw (pre-filter) neighbors.
pub open spec fn spec_line_applied(
    a: Seq<u8>,
    b: Seq<u8>,
    line: ScanLine,
    prev: Option<ScanLine>,
    ft: FilterType,
) -> bool {
    let bpp = spec_bytes_per_pixel(line.color_type, line.bit_depth);
    &&& b.len() == a.len()
    &&& (forall|i: int|
        0 <= i < a.len() && !(line.start + 1 <= i < line.end) ==> b[i] == a[i])
    &&& (forall|i: int|
        line.start + 1 <= i < line.end ==> b[i] == spec_filt_byte(
            ft,
            a[i],
            spec_left(a, line, i, bpp),
            spec_up(a, line, prev, i),
            spec_upleft(a, line, prev, i, bpp),
        ))
}

/// The predictor for one byte, computed from its three neighbors.
pub fn predictor(ft: FilterType, left: u8, up: u8, upleft: u8) -> (r: u8)
    ensures
        r == spec_predictor(ft, left, up, upleft),
{
    match ft {
        FilterType::NoFilter => 0,
        FilterType::Sub => left,
        FilterType::Up => up,
        FilterType::Average => (((left as u16) + (up as u16)) / 2) as u8,
        FilterType::Paeth => paeth::predict(left, up, upleft),
    }
}

/// Reconstructs the pixel bytes of one scanline in place, walking left to
/// right so every "left" neighbor read is already reconstructed.
pub(crate) fn reconstruct_scan(
    data: &mut Vec<u8>,
    line: &ScanLine,
    previous: Option<&ScanLine>,
    ft: FilterType,
)
    requires
        line.wf_for(old(data)@.len() as int),
        prev_wf(*line, prev_view(previous), old(data)@.len() as int),
    ensures
        spec_line_removed(old(data)@, final(data)@, *line, prev_view(previous), ft),
{
    let lo = line.start + 1;
    let hi = line.end;
    let bpp = line.bytes_per_pixel();
    let dlen = data.len();
    let mut i = lo;
    while i < hi
        invariant
            line.start < line.end <= dlen,
            lo == line.start + 1,
            hi == line.end,
            dlen == data@.len(),
            data@.len() == old(data)@.len(),
            bpp == spec_bytes_per_pixel(line.color_type, line.bit_depth),
            1 <= bpp,
            lo <= i <= hi,
            prev_wf(*line, prev_view(previous), old(data)@.len() as int),
            forall|j: int| 0 <= j < data@.len() && !(lo <= j < i) ==> data@[j] == old(data)@[j],
            forall|j: int|
                lo <= j < i ==> data@[j] == spec_recon_byte(
                    ft,
                    old(data)@[j],
                    spec_left(data@, *line, j, bpp as int),
                    spec_up(old(data)@, *line, prev_view(previous), j),
                    spec_upleft(old(data)@, *line, prev_view(previous), j, bpp as int),
                ),
        decreases hi - i,
    {
        let ghost pre = data@;
        let x = data[i];
        let left = byte::byte_in_previous_pixel(data, line, i, 0, bpp);
        let up = byte::byte_in_previous_line(data, previous, i - lo, 0);
        let upleft = byte::byte_in_previous_pixel_in_previous_line(data, previous, i - lo, 0, bpp);
        proof {
            assert(left == spec_left(data@, *line, i as int, bpp as int));
            assert(up == spec_up(old(data)@, *line, prev_view(previous), i as int));
            assert(upleft == spec_upleft(old(data)@, *line, prev_view(previous), i as int, bpp as int));
        }
        let v = byte::add_without_overflow(x, predictor(ft, left, up, upleft));
        data.set(i, v);
        i = i + 1;
        proof {
            assert forall|j: int| lo <= j < i implies data@[j] == spec_recon_byte(
                ft,
                old(data)@[j],
                spec_left(data@, *line, j, bpp as int),
                spec_up(old(data)@, *line, prev_view(previous), j),
                spec_upleft(old(data)@, *line, prev_view(previous), j, bpp as int),
            ) by {
                assert(spec_left(data@, *line, j, bpp as int) == spec_left(
                    pre,
                    *line,
                    j,
                    bpp as int,
                ));
            }
        }
    }
}

/// Filters the pixel bytes of one scanline in place, walking right to left
/// so every neighbor read still holds the raw (unfiltered) sample.
pub(crate) fn filter_scan(
    data: &mut Vec<u8>,
    line: &ScanLine,
    previous: Option<&ScanLine>,
    ft: FilterType,
)
    requires
        line.wf_for(old(data)@.len() as int),
        prev_wf(*line, prev_view(previous), old(data)@.len() as int),
    ensures
        spec_line_applied(old(data)@, final(data)@, *line, prev_view(previous), ft),
{
    let lo = line.start + 1;
    let hi = line.end;
    let bpp = line.bytes_per_pixel();
    let dlen = data.len();
    let mut i = hi;
    while i > lo
        invariant
            line.start < line.end <= dlen,
            lo == line.start + 1,
            hi == line.end,
            dlen == data@.len(),
            data@.len() == old(data)@.len(),
            bpp == spec_bytes_per_pixel(line.color_type, line.bit_depth),
            1 <= bpp,
            lo <= i <= hi,
            prev_wf(*line, prev_view(previous), old(data)@.len() as int),
            forall|j: int| 0 <= j < data@.len() && !(i <= j < hi) ==> data@[j] == old(data)@[j],
            forall|j: int|
                i <= j < hi ==> data@[j] == spec_filt_byte(
                    ft,
                    old(data)@[j],
                    spec_left(old(data)@, *line, j, bpp as int),
                    spec_up(old(data)@, *line, prev_view(previous), j),
                    spec_upleft(old(data)@, *line, prev_view(previous), j, bpp as int),
                ),
        decreases i - lo,
    {
        i = i - 1;
        let x = data[i];
        let left = byte::byte_in_previous_pixel(data, line, i, 0, bpp);
        let up = byte::byte_in_previous_line(data, previous, i - lo, 0);
        let upleft = byte::byte_in_previous_pixel_in_previous_line(data, previous, i - lo, 0, bpp);
        proof {
            assert(left == spec_left(old(data)@, *line, i as int, bpp as int));
            assert(up == spec_up(old(data)@, *line, prev_view(previous), i as int));
            assert(upleft == spec_upleft(old(data)@, *line, prev_view(previous), i as int, bpp as int));
        }
        let v = byte::sub_without_overflow(x, predictor(ft, left, up, upleft));
        data.set(i, v);
    }
}

/// Removes the line's cached filter from its pixel bytes in place, reading
/// the previous scanline as the causal neighbor.
pub fn remove(data: &mut Vec<u8>, line: &ScanLine, previous: Option<&ScanLine>)
    requires
        line.wf_for(old(data)@.len() as int),
        prev_wf(*line, prev_view(previous), old(data)@.len() as int),
    ensures
        spec_line_removed(old(data)@, final(data)@, *line, prev_view(previous), line.filter_type),
{
    match line.filter_type {
        FilterType::NoFilter => {
            proof {
                assert forall|i: int| line.start + 1 <= i < line.end implies data@[i]
                    == spec_recon_byte(
                    FilterType::NoFilter,
                    data@[i],
                    spec_left(data@, *line, i, spec_bytes_per_pixel(line.color_type, line.bit_depth)),
                    spec_up(data@, *line, prev_view(previous), i),
                    spec_upleft(
                        data@,
                        *line,
                        prev_view(previous),
                        i,
                        spec_bytes_per_pixel(line.color_type, line.bit_depth),
                    ),
                ) by {
                    assert((data@[i] + 0) % 256 == data@[i]);
                }
            }
        },
        FilterType::Sub => {
            sub::remove(data, line);
            proof {
                let ghost bpp = spec_bytes_per_pixel(line.color_type, line.bit_depth);
                assert forall|i: int| line.start + 1 <= i < line.end implies data@[i]
                    == spec_recon_byte(
                    FilterType::Sub,
                    old(data)@[i],
                    spec_left(data@, *line, i, bpp),
                    spec_up(old(data)@, *line, prev_view(previous), i),
                    spec_upleft(old(data)@, *line, prev_view(previous), i, bpp),
                ) by {
                    assert(data@[i] == spec_recon_byte(
                        FilterType::Sub,
                        old(data)@[i],
                        spec_left(data@, *line, i, bpp),
                        spec_up(old(data)@, *line, Option::None, i),
                        spec_upleft(old(data)@, *line, Option::None, i, bpp),
                    ));
                }
            }
        },
        FilterType::Up => up::remove(data, line, previous),
        FilterType::Average => average::remove(data, line, previous),
        FilterType::Paeth => paeth::remove(data, line, previous),
    }
}

/// Applies `filter_type` to the line's pixel bytes in place, reading the
/// previous scanline's raw bytes as the causal neighbor.
pub fn apply(filter_type: FilterType, data: &mut Vec<u8>, line: &ScanLine, previous: Option<
    &ScanLine,
>)
    requires
        line.wf_for(old(data)@.len() as int),
        prev_wf(*line, prev_view(previous), old(data)@.len() as int),
    ensures
        spec_line_applied(old(data)@, final(data)@, *line, prev_view(previous), filter_type),
{
    match filter_type {
        FilterType::NoFilter => {
            proof {
                assert forall|i: int| line.start + 1 <= i < line.end implies data@[i]
                    == spec_filt_byte(
                    FilterType::NoFilter,
                    data@[i],
                    spec_left(data@, *line, i, spec_bytes_per_pixel(line.color_type, line.bit_depth)),
                    spec_up(data@, *line, prev_view(previous), i),
                    spec_upleft(
                        data@,
                        *line,
                        prev_view(previous),
                        i,
                        spec_bytes_per_pixel(line.color_type, line.bit_depth),
                    ),
                ) by {
                    assert((data@[i] + 256 - 0) % 256 == data@[i]);
                }
            }
        },
        FilterType::Sub => {
            sub::apply(data, line);
            proof {
                let ghost bpp = spec_bytes_per_pixel(line.color_type, line.bit_depth);
                assert forall|i: int| line.start + 1 <= i < line.end implies data@[i]
                    == spec_filt_byte(
                    FilterType::Sub,
                    old(data)@[i],
                    spec_left(old(data)@, *line, i, bpp),
                    spec_up(old(data)@, *line, prev_view(previous), i),
                    spec_upleft(old(data)@, *line, prev_view(previous), i, bpp),
                ) by {
                    assert(data@[i] == spec_filt_byte(
                        FilterType::Sub,
                        old(data)@[i],
                        spec_left(old(data)@, *line, i, bpp),
                        spec_up(old(data)@, *line, Option::None, i),
                        spec_upleft(old(data)@, *line, Option::None, i, bpp),
                    ));
                }
            }
        },
        FilterType::Up => up::apply(data, line, previous),
        FilterType::Average => average::apply(data, line, previous),
        FilterType::Paeth => paeth::apply(data, line, previous),
    }
}

} // verus!
