//! Scanline views: lightweight windows over the decoded buffer.
//!
//! A view holds a byte range and the color metadata; the decoded buffer itself
//! is passed to every operation, so many views may alias one buffer without
//! sharing ownership. The filter tag stored in the buffer is authoritative;
//! the `filter_type` field caches it from view-construction time.

use vstd::prelude::*;
use crate::filter;
use crate::filter::{
    prev_view, prev_wf, spec_filt_byte, spec_left, spec_line_applied, spec_line_removed,
    spec_recon_byte, spec_up, spec_upleft,
};
use crate::filter_type::{FilterType, spec_filter_code, spec_filter_of_code};
use crate::header::{ColorType, spec_bit_per_pixel};

verus! {

/// How a scanline looks after its filter was removed: the tag byte reads 0,
/// bytes outside the line are untouched, and each pixel byte equals the
/// stored byte plus the predictor over the already-reconstructed left
/// neighbor and the previous line's bytes.
pub open spec fn spec_line_remove_op(
    a: Seq<u8>,
    b: Seq<u8>,
    line: ScanLine,
    prev: Option<ScanLine>,
    ft: FilterType,
) -> bool {
    let bpp = spec_bytes_per_pixel(line.color_type, line.bit_depth);
    &&& b.len() == a.len()
    &&& b[line.start as int] == 0
    &&& (forall|i: int|
        0 <= i < a.len() && !(line.start <= i < line.end) ==> b[i] == a[i])
    &&& (forall|i: int|
        line.start + 1 <= i < line.end ==> b[i] == spec_recon_byte(
            ft,
            a[i],
            spec_left(b, line, i, bpp),
            spec_up(a, line, prev, i),
            spec_upleft(a, line, prev, i, bpp),
        ))
}

/// How a scanline looks after a filter was applied: the tag byte reads the
/// filter's code, bytes outside the line are untouched, and each pixel byte
/// equals the raw byte minus the predictor over the raw neighbors.
pub open spec fn spec_line_apply_op(
    a: Seq<u8>,
    b: Seq<u8>,
    line: ScanLine,
    prev: Option<ScanLine>,
    ft: FilterType,
) -> bool {
    let bpp = spec_bytes_per_pixel(line.color_type, line.bit_depth);
    &&& b.len() == a.len()
    &&& b[line.start as int] == spec_filter_code(ft)
    &&& (forall|i: int|
        0 <= i < a.len() && !(line.start <= i < line.end) ==> b[i] == a[i])
    &&& (forall|i: int|
        line.start + 1 <= i < line.end ==> b[i] == spec_filt_byte(
            ft,
            a[i],
            spec_left(a, line, i, bpp),
            spec_up(a, line, prev, i),
            spec_upleft(a, line, prev, i, bpp),
        ))
}

/// Bytes per pixel: the pixel's bits rounded up to whole bytes, at least 1.
pub open spec fn spec_bytes_per_pixel(ct: ColorType, bit_depth: u8) -> int {
    let b = (spec_bit_per_pixel(ct, bit_depth) + 7) / 8;
    if b < 1 {
        1
    } else {
        b
    }
}

/// A byte range over the decoded buffer together with the color metadata
/// needed to interpret it as a scanline.
#[derive(Clone, Copy, Debug)]
pub struct MemoryRange {
    /// The index of the scanline's filter-tag byte.
    pub start: usize,
    /// The index one past the scanline's last pixel byte.
    pub end: usize,
    /// The color type of the image.
    pub color_type: ColorType,
    /// The bit depth of each channel.
    pub bit_depth: u8,
}

impl MemoryRange {
    /// Builds a memory range.
    pub fn new(start: usize, end: usize, color_type: ColorType, bit_depth: u8) -> (r: MemoryRange)
        ensures
            r == (MemoryRange { start, end, color_type, bit_depth }),
    {
        MemoryRange { start, end, color_type, bit_depth }
    }

    /// The byte at the start of the range, if the range begins inside the
    /// buffer.
    pub fn first_byte(&self, data: &Vec<u8>) -> (r: Option<u8>)
        ensures
            r is Some <==> self.start < data@.len(),
            self.start < data@.len() ==> r == Some(data@[self.start as int]),
    {
        if self.start < data.len() {
            Some(data[self.start])
        } else {
            Option::None
        }
    }
}

/// A scanline view: a filter tag cached at construction, a byte range into
/// the decoded buffer, and the color metadata.
#[derive(Clone, Copy, Debug)]
pub struct ScanLine {
    /// The filter type cached from the tag byte at view-construction time.
    pub filter_type: FilterType,
    /// The index of the scanline's filter-tag byte.
    pub start: usize,
    /// The index one past the scanline's last pixel byte.
    pub end: usize,
    /// The color type of the image.
    pub color_type: ColorType,
    /// The bit depth of each channel.
    pub bit_depth: u8,
}

impl ScanLine {
    /// The view denotes a non-empty range inside a buffer of `data_len` bytes.
    pub open spec fn wf_for(self, data_len: int) -> bool {
        self.start < self.end <= data_len
    }

    /// The number of pixel-data bytes (the range minus the tag byte).
    pub open spec fn spec_size(self) -> int {
        self.end - self.start - 1
    }

    /// Builds a view from its parts; nothing is read or written.
    pub fn new(
        filter_type: FilterType,
        start: usize,
        end: usize,
        color_type: ColorType,
        bit_depth: u8,
    ) -> (r: ScanLine)
        ensures
            r == (ScanLine { filter_type, start, end, color_type, bit_depth }),
    {
        ScanLine { filter_type, start, end, color_type, bit_depth }
    }

    /// Builds a view over `range`, reading the filter tag out of the buffer.
    /// Yields nothing if the range is not a well-formed window into the
    /// buffer or the tag byte is above 4.
    pub fn from_range(data: &Vec<u8>, range: MemoryRange) -> (r: Option<ScanLine>)
        ensures
            r is Some <==> (range.start < range.end && range.end <= data@.len()
                && data@[range.start as int] <= 4),
            r matches Some(line) ==> line == (ScanLine {
                filter_type: spec_filter_of_code(data@[range.start as int]),
                start: range.start,
                end: range.end,
                color_type: range.color_type,
                bit_depth: range.bit_depth,
            }),
    {
        if !(range.start < range.end && range.end <= data.len()) {
            return Option::None;
        }
        let byte = data[range.start];
        match FilterType::from_u8(byte) {
            Some(filter_type) => Some(
                ScanLine {
                    filter_type,
                    start: range.start,
                    end: range.end,
                    color_type: range.color_type,
                    bit_depth: range.bit_depth,
                },
            ),
            Option::None => Option::None,
        }
    }

    /// The index of the first pixel-data byte.
    pub fn pixel_data_offset(&self) -> (r: usize)
        requires
            self.start < self.end,
        ensures
            r == self.start + 1,
    {
        self.start + 1
    }

    /// The pixel-data byte range, as a start and one-past-the-end pair.
    pub fn pixel_data_range(&self) -> (r: (usize, usize))
        requires
            self.start < self.end,
        ensures
            r.0 == self.start + 1,
            r.1 == self.end,
    {
        (self.start + 1, self.end)
    }

    /// The number of bytes each pixel occupies, at least 1.
    pub fn bytes_per_pixel(&self) -> (r: usize)
        ensures
            r == spec_bytes_per_pixel(self.color_type, self.bit_depth),
            1 <= r <= 128,
    {
        let bits = self.color_type.bit_per_pixel(self.bit_depth);
        let b = (bits + 7) / 8;
        if b < 1 {
            1
        } else {
            b
        }
    }

    /// The filter type cached at view-construction time.
    pub fn filter_type(&self) -> (r: FilterType)
        ensures
            r == self.filter_type,
    {
        self.filter_type
    }

    /// Caches the given filter type and writes its tag byte back into the
    /// buffer at the head of the view's range.
    pub fn set_filter_type(&mut self, data: &mut Vec<u8>, filter_type: FilterType)
        requires
            old(self).start < old(data)@.len(),
        ensures
            *final(self) == (ScanLine { filter_type, ..*old(self) }),
            final(data)@ == old(data)@.update(
                old(self).start as int,
                spec_filter_code(filter_type),
            ),
    {
        self.filter_type = filter_type;
        let code = filter_type.as_u8();
        data.set(self.start, code);
    }

    /// The number of pixel-data bytes in the scanline.
    pub fn size(&self) -> (r: usize)
        requires
            self.start < self.end,
        ensures
            r == self.spec_size(),
    {
        self.end - self.start - 1
    }

    /// The color type of the image.
    pub fn color_type(&self) -> (r: ColorType)
        ensures
            r == self.color_type,
    {
        self.color_type
    }

    /// The bit depth of each channel.
    pub fn bit_depth(&self) -> (r: u8)
        ensures
            r == self.bit_depth,
    {
        self.bit_depth
    }

    /// Applies `filter_type` to the scanline in place (right to left, so the
    /// neighbors read are the raw samples) and rewrites the tag byte.
    pub fn apply_filter(
        &mut self,
        data: &mut Vec<u8>,
        filter_type: FilterType,
        previous: Option<&ScanLine>,
    )
        requires
            old(self).wf_for(old(data)@.len() as int),
            prev_wf(*old(self), prev_view(previous), old(data)@.len() as int),
        ensures
            *final(self) == (ScanLine { filter_type, ..*old(self) }),
            spec_line_apply_op(
                old(data)@,
                final(data)@,
                *old(self),
                prev_view(previous),
                filter_type,
            ),
    {
        let line = *self;
        filter::apply(filter_type, data, &line, previous);
        self.set_filter_type(data, filter_type);
    }

    /// Removes the scanline's cached filter in place (left to right, so each
    /// reconstructed byte feeds the next) and rewrites the tag byte to 0.
    pub fn remove_filter(&mut self, data: &mut Vec<u8>, other: Option<&ScanLine>)
        requires
            old(self).wf_for(old(data)@.len() as int),
            prev_wf(*old(self), prev_view(other), old(data)@.len() as int),
        ensures
            *final(self) == (ScanLine { filter_type: FilterType::NoFilter, ..*old(self) }),
            spec_line_remove_op(
                old(data)@,
                final(data)@,
                *old(self),
                prev_view(other),
                old(self).filter_type,
            ),
    {
        let line = *self;
        filter::remove(data, &line, other);
        self.set_filter_type(data, FilterType::NoFilter);
    }

    /// The pixel-data byte at `index`, or nothing when `index` is out of the
    /// pixel-data range.
    pub fn index(&self, data: &Vec<u8>, index: usize) -> (r: Option<u8>)
        requires
            self.wf_for(data@.len() as int),
        ensures
            r is Some <==> index < self.spec_size(),
            index < self.spec_size() ==> r == Some(data@[self.start + 1 + index]),
    {
        let offset = self.start + 1;
        if index < self.end - offset {
            Some(data[offset + index])
        } else {
            Option::None
        }
    }

    /// Overwrites the pixel-data byte at `index` with `value`; out-of-range
    /// writes change nothing.
    pub fn update(&self, data: &mut Vec<u8>, index: usize, value: u8)
        requires
            self.wf_for(old(data)@.len() as int),
        ensures
            index < self.spec_size() ==> final(data)@ == old(data)@.update(
                self.start + 1 + index,
                value,
            ),
            index >= self.spec_size() ==> final(data)@ == old(data)@,
    {
        let offset = self.start + 1;
        if index < self.end - offset {
            data.set(offset + index, value);
        }
    }

    /// Copies pixel-data bytes into the front of `buf`, as many as both the
    /// scanline and `buf` can hold, and reports how many were copied.
    pub fn read(&self, data: &Vec<u8>, buf: &mut Vec<u8>) -> (n: usize)
        requires
            self.wf_for(data@.len() as int),
        ensures
            n == if self.spec_size() <= old(buf)@.len() {
                self.spec_size()
            } else {
                old(buf)@.len() as int
            },
            final(buf)@.len() == old(buf)@.len(),
            forall|i: int| 0 <= i < n ==> final(buf)@[i] == data@[self.start + 1 + i],
            forall|i: int| n <= i < old(buf)@.len() ==> final(buf)@[i] == old(buf)@[i],
    {
        let size = self.size();
        let n = if size <= buf.len() {
            size
        } else {
            buf.len()
        };
        let offset = self.start + 1;
        let dlen = data.len();
        let mut i: usize = 0;
        while i < n
            invariant
                n <= buf@.len(),
                i <= n,
                offset == self.start + 1,
                offset + n <= dlen,
                dlen == data@.len(),
                buf@.len() == old(buf)@.len(),
                forall|j: int| 0 <= j < i ==> buf@[j] == data@[self.start + 1 + j],
                forall|j: int| i <= j < old(buf)@.len() ==> buf@[j] == old(buf)@[j],
            decreases n - i,
        {
            buf.set(i, data[offset + i]);
            i = i + 1;
        }
        n
    }

    /// Appends every pixel-data byte of the scanline to `buf` and reports how
    /// many were appended.
    pub fn read_to_end(&self, data: &Vec<u8>, buf: &mut Vec<u8>) -> (n: usize)
        requires
            self.wf_for(data@.len() as int),
        ensures
            n == self.spec_size(),
            final(buf)@ == old(buf)@ + data@.subrange(self.start + 1, self.end as int),
    {
        let offset = self.start + 1;
        let mut i: usize = 0;
        let size = self.size();
        while i < size
            invariant
                i <= size,
                size == self.spec_size(),
                offset == self.start + 1,
                offset + size <= data@.len(),
                buf@ == old(buf)@ + data@.subrange(self.start + 1, self.start + 1 + i),
            decreases size - i,
        {
            buf.push(data[offset + i]);
            i = i + 1;
            proof {
                assert(buf@ =~= old(buf)@ + data@.subrange(self.start + 1, self.start + 1 + i));
            }
        }
        proof {
            assert(data@.subrange(self.start + 1, self.start + 1 + size as int) =~= data@.subrange(
                self.start + 1,
                self.end as int,
            ));
        }
        size
    }

    /// Copies bytes from the front of `buf` into the scanline's pixel data,
    /// as many as both can hold, and reports how many were copied.
    pub fn write(&self, data: &mut Vec<u8>, buf: &[u8]) -> (n: usize)
        requires
            self.wf_for(old(data)@.len() as int),
        ensures
            n == if self.spec_size() <= buf@.len() {
                self.spec_size()
            } else {
                buf@.len() as int
            },
            final(data)@.len() == old(data)@.len(),
            forall|i: int| 0 <= i < n ==> final(data)@[self.start + 1 + i] == buf@[i],
            forall|i: int|
                0 <= i < old(data)@.len() && !(self.start + 1 <= i < self.start + 1 + n)
                    ==> final(data)@[i] == old(data)@[i],
    {
        let size = self.size();
        let n = if size <= buf.len() {
            size
        } else {
            buf.len()
        };
        let offset = self.start + 1;
        let dlen = data.len();
        let mut i: usize = 0;
        while i < n
            invariant
                i <= n,
                n <= buf@.len(),
                offset == self.start + 1,
                offset + n <= dlen,
                dlen == data@.len(),
                data@.len() == old(data)@.len(),
                forall|j: int| 0 <= j < i ==> data@[self.start + 1 + j] == buf@[j],
                forall|j: int|
                    0 <= j < old(data)@.len() && !(self.start + 1 <= j < self.start + 1 + i)
                        ==> data@[j] == old(data)@[j],
            decreases n - i,
        {
            data.set(offset + i, buf[i]);
            i = i + 1;
        }
        n
    }
}

} // verus!
