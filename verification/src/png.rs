//! The PNG aggregate: header, terminator, preserved ancillary chunks, and
//! the single decoded buffer that every scanline view aliases.

use vstd::prelude::*;
use crate::chunk::{
    Chunk, ChunkType, Terminator, spec_chunk_bytes, spec_idat_tag, spec_iend_tag, spec_ihdr_tag,
    spec_tag_bytes, spec_be32_bytes,
};
use crate::codec::{crc32, deflate, spec_crc32, spec_deflate, spec_inflate};
use crate::error::PngError;
use crate::header::Header;
use crate::filter::{spec_filt_byte, spec_left, spec_recon_byte, spec_up, spec_upleft};
use crate::filter_type::{FilterType, spec_filter_code, spec_filter_of_code};
use crate::header::ColorType;
use crate::parser::{Parser, PngModel, spec_chunk_model, spec_header_model, spec_parse};
use crate::scan_line::{
    MemoryRange, ScanLine, spec_bytes_per_pixel, spec_line_apply_op, spec_line_remove_op,
};
use vstd::pervasive::unreached;

verus! {

/// The view of scanline `k` in a buffer of `sw`-byte scanlines.
pub open spec fn spec_line_at(sw: int, ct: ColorType, bd: u8, ft: FilterType, k: int) -> ScanLine {
    ScanLine {
        filter_type: ft,
        start: (k * sw) as usize,
        end: (k * sw + sw) as usize,
        color_type: ct,
        bit_depth: bd,
    }
}

/// How scanline `k` looks after its filter was removed in a forward pass:
/// the tag byte reads 0 and each pixel byte equals the byte it replaced plus
/// the predictor, whose left neighbor is already reconstructed (read from
/// `b`) and whose up neighbors come from the previous scanline as the pass
/// left it (also `b`: reconstructed when it was in the span, raw otherwise).
pub open spec fn spec_line_removed_at(
    a: Seq<u8>,
    b: Seq<u8>,
    sw: int,
    ct: ColorType,
    bd: u8,
    k: int,
) -> bool {
    let ft = spec_filter_of_code(a[k * sw]);
    let line = spec_line_at(sw, ct, bd, ft, k);
    let prev = if k > 0 {
        Some(spec_line_at(sw, ct, bd, FilterType::NoFilter, k - 1))
    } else {
        Option::<ScanLine>::None
    };
    let bpp = spec_bytes_per_pixel(ct, bd);
    &&& b[k * sw] == 0
    &&& (forall|i: int|
        k * sw + 1 <= i < k * sw + sw ==> b[i] == spec_recon_byte(
            ft,
            a[i],
            spec_left(b, line, i, bpp),
            spec_up(b, line, prev, i),
            spec_upleft(b, line, prev, i, bpp),
        ))
}

/// How the buffer looks after filters were removed from scanlines
/// `[from, end)`: bytes outside the span are untouched and each scanline in
/// the span is reconstructed against its causal predecessor.
pub open spec fn spec_removed_from(
    a: Seq<u8>,
    b: Seq<u8>,
    sw: int,
    ct: ColorType,
    bd: u8,
    from: int,
    end: int,
) -> bool {
    &&& b.len() == a.len()
    &&& (forall|i: int| 0 <= i < a.len() && !(from * sw <= i < end * sw) ==> b[i] == a[i])
    &&& (forall|k: int| from <= k < end ==> #[trigger] spec_line_removed_at(a, b, sw, ct, bd, k))
}

/// How scanline `k` looks after `ft` was applied in a backward pass: the
/// tag byte reads the filter's code and each pixel byte equals the raw byte
/// minus the predictor over the raw neighbors, all read from `a` (the pass
/// runs bottom to top, so nothing it reads was overwritten yet).
pub open spec fn spec_line_applied_at(
    a: Seq<u8>,
    b: Seq<u8>,
    sw: int,
    ct: ColorType,
    bd: u8,
    ft: FilterType,
    k: int,
) -> bool {
    let line = spec_line_at(sw, ct, bd, ft, k);
    let prev = if k > 0 {
        Some(spec_line_at(sw, ct, bd, FilterType::NoFilter, k - 1))
    } else {
        Option::<ScanLine>::None
    };
    let bpp = spec_bytes_per_pixel(ct, bd);
    &&& b[k * sw] == spec_filter_code(ft)
    &&& (forall|i: int|
        k * sw + 1 <= i < k * sw + sw ==> b[i] == spec_filt_byte(
            ft,
            a[i],
            spec_left(a, line, i, bpp),
            spec_up(a, line, prev, i),
            spec_upleft(a, line, prev, i, bpp),
        ))
}

/// How the buffer looks after `ft` was applied to scanlines `[from, end)`:
/// bytes outside the span are untouched and each scanline in the span is
/// filtered against the raw bytes of the scanline physically above it.
pub open spec fn spec_applied_from(
    a: Seq<u8>,
    b: Seq<u8>,
    sw: int,
    ct: ColorType,
    bd: u8,
    ft: FilterType,
    from: int,
    end: int,
) -> bool {
    &&& b.len() == a.len()
    &&& (forall|i: int| 0 <= i < a.len() && !(from * sw <= i < end * sw) ==> b[i] == a[i])
    &&& (forall|k: int|
        from <= k < end ==> #[trigger] spec_line_applied_at(a, b, sw, ct, bd, ft, k))
}

/// How the buffer looks after the byte spans `[src, src + len)` and
/// `[dst, dst + len)` were swapped; where the spans overlap, the bytes
/// moved into the destination span win.
pub open spec fn spec_transposed(a: Seq<u8>, b: Seq<u8>, src: int, dst: int, len: int) -> bool {
    &&& b.len() == a.len()
    &&& (forall|i: int|
        0 <= i < a.len() ==> #[trigger] b[i] == if dst <= i < dst + len {
            a[src + (i - dst)]
        } else if src <= i < src + len {
            a[dst + (i - src)]
        } else {
            a[i]
        })
}

/// The facts one pass of `foreach_scanline` leaves on scanline `k`, with
/// the callback's input copy and output pair named: the callback was handed
/// the scanline's view and its pixel bytes, the tag byte now holds the
/// returned filter's code, and the pixel bytes hold the returned bytes, as
/// many as the scanline can hold, the rest untouched.
pub open spec fn spec_scanline_witness<F: Fn(ScanLine, Vec<u8>) -> (FilterType, Vec<u8>)>(
    a: Seq<u8>,
    b: Seq<u8>,
    sw: int,
    ct: ColorType,
    bd: u8,
    k: int,
    modifier: F,
    v: Vec<u8>,
    out: (FilterType, Vec<u8>),
) -> bool {
    let line = spec_line_at(sw, ct, bd, spec_filter_of_code(a[k * sw]), k);
    &&& v@ == a.subrange(k * sw + 1, k * sw + sw)
    &&& call_ensures(modifier, (line, v), out)
    &&& b[k * sw] == spec_filter_code(out.0)
    &&& (forall|i: int|
        0 <= i < sw - 1 ==> #[trigger] b[k * sw + 1 + i] == (if i < out.1@.len() {
            out.1@[i]
        } else {
            a[k * sw + 1 + i]
        }))
}

/// Scanline `k` was rewritten by one callback pass: some output of the
/// callback on the scanline's old bytes explains its new bytes.
pub open spec fn spec_scanline_modified<F: Fn(ScanLine, Vec<u8>) -> (FilterType, Vec<u8>)>(
    a: Seq<u8>,
    b: Seq<u8>,
    sw: int,
    ct: ColorType,
    bd: u8,
    k: int,
    modifier: F,
) -> bool {
    exists|v: Vec<u8>, out: (FilterType, Vec<u8>)|
        #[trigger] spec_scanline_witness(a, b, sw, ct, bd, k, modifier, v, out)
}

/// Every scanline's filter-tag byte (the first byte of each `sw`-byte line)
/// is a valid tag, at most 4.
pub open spec fn spec_tags_valid(d: Seq<u8>, sw: int, h: int) -> bool {
    forall|k: int| 0 <= k < h ==> #[trigger] d[k * sw] <= 4
}

/// The serialized chunk records of a chunk sequence, concatenated in order.
pub open spec fn spec_concat_chunks(cs: Seq<crate::parser::ChunkModel>) -> Seq<u8>
    decreases cs.len(),
{
    if cs.len() == 0 {
        Seq::empty()
    } else {
        spec_concat_chunks(cs.drop_last()) + spec_chunk_bytes(
            cs.last().tag,
            cs.last().data,
            cs.last().crc,
        )
    }
}

/// Concatenating chunk records can also be unfolded from the front.
pub proof fn lemma_concat_chunks_head(cs: Seq<crate::parser::ChunkModel>)
    requires
        cs.len() > 0,
    ensures
        spec_concat_chunks(cs) == spec_chunk_bytes(cs[0].tag, cs[0].data, cs[0].crc)
            + spec_concat_chunks(cs.skip(1)),
    decreases cs.len(),
{
    let head = spec_chunk_bytes(cs[0].tag, cs[0].data, cs[0].crc);
    if cs.len() == 1 {
        assert(cs.drop_last() =~= Seq::<crate::parser::ChunkModel>::empty());
        assert(cs.skip(1) =~= Seq::<crate::parser::ChunkModel>::empty());
        assert(Seq::<u8>::empty() + head =~= head);
        assert(head + Seq::<u8>::empty() =~= head);
    } else {
        lemma_concat_chunks_head(cs.drop_last());
        assert(cs.drop_last()[0] == cs[0]);
        assert(cs.drop_last().skip(1) =~= cs.skip(1).drop_last());
        assert(cs.skip(1).last() == cs.last());
        let tail_bytes = spec_chunk_bytes(cs.last().tag, cs.last().data, cs.last().crc);
        assert(spec_concat_chunks(cs) == (head + spec_concat_chunks(cs.skip(1).drop_last()))
            + tail_bytes);
        assert((head + spec_concat_chunks(cs.skip(1).drop_last())) + tail_bytes =~= head + (
        spec_concat_chunks(cs.skip(1).drop_last()) + tail_bytes));
    }
}

/// The CRC bytes of the synthesized IDAT chunk: the checksum of the tag
/// followed by the compressed payload, in big-endian order.
pub open spec fn spec_idat_crc_bytes(payload: Seq<u8>) -> Seq<u8> {
    spec_be32_bytes(spec_crc32(spec_idat_tag() + payload) as int)
}

/// The full serialization of an image: signature, IHDR record, ancillary
/// records in order, one synthesized IDAT record holding the deflated
/// decoded buffer with a fresh CRC, and the IEND record.
pub open spec fn spec_png_bytes(m: PngModel) -> Seq<u8> {
    spec_signature() + spec_chunk_bytes(m.header.chunk.tag, m.header.chunk.data, m.header.chunk.crc)
        + spec_concat_chunks(m.misc) + spec_chunk_bytes(
        spec_idat_tag(),
        spec_deflate(m.data),
        spec_idat_crc_bytes(spec_deflate(m.data)),
    ) + spec_chunk_bytes(m.iend.tag, m.iend.data, m.iend.crc)
}

/// The 8-byte PNG signature.
pub open spec fn spec_signature() -> Seq<u8> {
    seq![0x89u8, 0x50u8, 0x4Eu8, 0x47u8, 0x0Du8, 0x0Au8, 0x1Au8, 0x0Au8]
}

/// A parsed PNG image: the IHDR header, the IEND terminator, the ancillary
/// chunks in their original order, and the inflated decoded buffer holding
/// every scanline back to back.
pub struct Png {
    /// The IHDR chunk with its parsed metadata.
    pub header: Header,
    /// The IEND chunk, preserved verbatim.
    pub terminator: Terminator,
    /// The ancillary chunks, preserved verbatim in encounter order.
    pub misc_chunks: Vec<Chunk>,
    /// The decoded buffer: `scanline_width * height` bytes, each scanline
    /// led by its filter-tag byte.
    pub data: Vec<u8>,
}

impl Png {
    /// The structural invariant of a parsed image: the header agrees with
    /// its raw bytes, the terminator is an IEND chunk, the ancillary chunks
    /// carry none of the three structural tags, the decoded buffer holds
    /// exactly `scanline_width * height` bytes, and every filter tag is
    /// valid.
    pub open spec fn wf(self) -> bool {
        &&& self.header.wf()
        &&& self.terminator.inner.chunk_type is End
        &&& self.terminator.inner.data@.len() <= u32::MAX
        &&& (forall|j: int|
            0 <= j < self.misc_chunks@.len() ==> {
                &&& self.misc_chunks@[j].chunk_type is Other
                &&& self.misc_chunks@[j].data@.len() <= u32::MAX
                &&& spec_tag_bytes(self.misc_chunks@[j].chunk_type) != spec_ihdr_tag()
                &&& spec_tag_bytes(self.misc_chunks@[j].chunk_type) != spec_idat_tag()
                &&& spec_tag_bytes(self.misc_chunks@[j].chunk_type) != spec_iend_tag()
            })
        &&& self.data@.len() == self.header.scanline_width * self.header.metadata.height
        &&& self.data@.len() <= usize::MAX
        &&& spec_tags_valid(
            self.data@,
            self.header.scanline_width as int,
            self.header.metadata.height as int,
        )
    }

    /// The mathematical content of the image.
    pub open spec fn model(self) -> PngModel {
        PngModel {
            header: spec_header_model(spec_chunk_model(self.header.inner)),
            iend: spec_chunk_model(self.terminator.inner),
            misc: self.misc_chunks@.map_values(|c: Chunk| spec_chunk_model(c)),
            data: self.data@,
        }
    }

    /// The number of bytes in one scanline, filter tag included.
    pub open spec fn spec_scanline_width(self) -> int {
        self.header.scanline_width as int
    }

    /// The height of the image in scanlines.
    pub open spec fn spec_height(self) -> int {
        self.header.metadata.height as int
    }

    /// Assembles a parsed image from its parts.
    pub fn new(header: Header, terminator: Terminator, misc_chunks: Vec<Chunk>, data: Vec<u8>) -> (r:
        Png)
        requires
            ({
                let png = Png { header, terminator, misc_chunks, data };
                png.wf()
            }),
        ensures
            r == (Png { header, terminator, misc_chunks, data }),
            r.wf(),
    {
        Png { header, terminator, misc_chunks, data }
    }

    /// Parses a PNG byte stream into an image.
    pub fn parse(buffer: &[u8]) -> (r: Result<Png, PngError>)
        ensures
            r is Ok <==> spec_parse(buffer@) is Ok,
            r matches Err(e) ==> spec_parse(buffer@) == Err::<PngModel, PngError>(e),
            r matches Ok(png) ==> png.wf() && Ok::<PngModel, PngError>(png.model()) == spec_parse(
                buffer@,
            ),
    {
        Parser::parse(buffer)
    }

    /// The width of the image in pixels.
    pub fn width(&self) -> (r: u32)
        ensures
            r == self.header.metadata.width,
    {
        self.header.width()
    }

    /// The height of the image in scanlines.
    pub fn height(&self) -> (r: u32)
        ensures
            r == self.header.metadata.height,
    {
        self.header.height()
    }

    /// The number of bytes in one scanline, filter tag included.
    pub fn scan_line_width(&self) -> (r: usize)
        ensures
            r == self.header.scanline_width,
    {
        self.header.scan_line_width()
    }

    /// The decoded buffer.
    pub fn decoded_data(&self) -> (r: &Vec<u8>)
        ensures
            r == &self.data,
    {
        &self.data
    }

    /// The decoded buffer, for mutation through scanline views. A caller
    /// that changes its length or writes an invalid filter tag leaves the
    /// image outside `wf`.
    pub fn decoded_data_mut(&mut self) -> (r: &mut Vec<u8>)
        ensures
            *r == old(self).data,
            *final(self) == (Png { data: *final(r), ..*old(self) }),
    {
        &mut self.data
    }

    /// The byte offset at which scanline `scan_line_index` starts.
    pub fn index_of(&self, scan_line_index: usize) -> (r: usize)
        requires
            self.wf(),
            scan_line_index <= self.spec_height(),
        ensures
            r == scan_line_index * self.spec_scanline_width(),
    {
        let size = self.scan_line_width();
        let dlen = self.data.len();
        proof {
            assert(scan_line_index * size <= self.spec_height() * size) by (nonlinear_arith)
                requires
                    0 <= scan_line_index <= self.spec_height(),
                    0 <= size,
            ;
            assert(self.spec_height() * size == size * self.spec_height()) by (nonlinear_arith);
            assert(scan_line_index * size <= dlen);
        }
        scan_line_index * size
    }

    /// The byte range covering `lines` scanlines starting at scanline
    /// `scan_line_index`.
    pub fn scan_line_range(&self, scan_line_index: usize, lines: u32) -> (r: (usize, usize))
        requires
            self.wf(),
            scan_line_index + lines <= self.spec_height(),
        ensures
            r.0 == scan_line_index * self.spec_scanline_width(),
            r.1 == (scan_line_index + lines) * self.spec_scanline_width(),
            r.0 <= r.1 <= self.data@.len(),
    {
        let start = self.index_of(scan_line_index);
        let end = self.index_of(scan_line_index + (lines as usize));
        proof {
            assert(scan_line_index * self.spec_scanline_width() <= (scan_line_index + lines)
                * self.spec_scanline_width()) by (nonlinear_arith)
                requires
                    0 <= scan_line_index,
                    0 <= lines,
                    0 <= self.spec_scanline_width(),
            ;
            assert((scan_line_index + lines) * self.spec_scanline_width() <= self.spec_height()
                * self.spec_scanline_width()) by (nonlinear_arith)
                requires
                    scan_line_index + lines <= self.spec_height(),
                    0 <= self.spec_scanline_width(),
            ;
            assert(self.spec_height() * self.spec_scanline_width() == self.spec_scanline_width()
                * self.spec_height()) by (nonlinear_arith);
        }
        (start, end)
    }

    /// Views of `lines` scanlines starting at scanline `from`, clamped to
    /// the image's height.
    pub fn scan_lines_from(&self, from: usize, lines: usize) -> (r: Vec<ScanLine>)
        requires
            self.wf(),
        ensures
            r@.len() == if from as int <= self.spec_height() {
                if from + lines <= self.spec_height() {
                    lines as int
                } else {
                    self.spec_height() - from
                }
            } else {
                0
            },
            forall|j: int|
                0 <= j < r@.len() ==> r@[j] == spec_line_at(
                    self.spec_scanline_width(),
                    self.header.metadata.color_type,
                    self.header.metadata.bit_depth,
                    spec_filter_of_code(
                        self.data@[(from + j) * self.spec_scanline_width()],
                    ),
                    from + j,
                ),
    {
        let h = self.header.height() as usize;
        let sw = self.scan_line_width();
        let color_type = self.header.color_type();
        let bit_depth = self.header.bit_depth();
        let count = if from > h {
            0
        } else if lines > h - from {
            h - from
        } else {
            lines
        };
        let mut r: Vec<ScanLine> = Vec::new();
        if count == 0 {
            return r;
        }
        let mut start = self.index_of(from);
        let dlen = self.data.len();
        let mut j: usize = 0;
        while j < count
            invariant
                self.wf(),
                dlen == self.data@.len(),
                sw == self.spec_scanline_width(),
                h == self.spec_height(),
                color_type == self.header.metadata.color_type,
                bit_depth == self.header.metadata.bit_depth,
                from + count <= h,
                j <= count,
                start == (from + j) * sw,
                r@.len() == j,
                forall|i: int|
                    0 <= i < j ==> r@[i] == spec_line_at(
                        sw as int,
                        color_type,
                        bit_depth,
                        spec_filter_of_code(self.data@[(from + i) * (sw as int)]),
                        from + i,
                    ),
            decreases count - j,
        {
            proof {
                assert((from + j) * sw + sw <= h * sw) by (nonlinear_arith)
                    requires
                        0 <= from + j < h,
                        1 <= sw,
                ;
                assert((from + j + 1) * sw == (from + j) * sw + sw) by (nonlinear_arith);
                assert(h * sw == sw * h) by (nonlinear_arith);
                assert(start + sw <= dlen);
                assert(self.data@[((from + j) * sw) as int] <= 4);
            }
            let range = MemoryRange::new(start, start + sw, color_type, bit_depth);
            let line = match ScanLine::from_range(&self.data, range) {
                Some(line) => line,
                Option::None => unreached(),
            };
            r.push(line);
            j = j + 1;
            start = start + sw;
        }
        r
    }

    /// Removes the filters from scanlines `[from, from + lines)` (clamped to
    /// the image's height), walking top to bottom so each reconstructed
    /// scanline feeds the next one's up neighbors, and rewrites each tag
    /// byte to 0. Scanline `from - 1`, if any, is read but not changed.
    pub fn remove_filter_from(&mut self, from: u32, lines: u32)
        requires
            old(self).wf(),
        ensures
            final(self).wf(),
            final(self).header == old(self).header,
            final(self).terminator == old(self).terminator,
            final(self).misc_chunks == old(self).misc_chunks,
            ({
                let h = old(self).spec_height();
                let s = if from as int <= h {
                    from as int
                } else {
                    h
                };
                let e = if from + lines <= h {
                    from + lines
                } else {
                    h
                };
                spec_removed_from(
                    old(self).data@,
                    final(self).data@,
                    old(self).spec_scanline_width(),
                    old(self).header.metadata.color_type,
                    old(self).header.metadata.bit_depth,
                    s,
                    e,
                )
            }),
    {
        let sw = self.header.scan_line_width();
        let h = self.header.height();
        let ct = self.header.color_type();
        let bd = self.header.bit_depth();
        let start_line: u32 = if from > h {
            h
        } else {
            from
        };
        let end64: u64 = from as u64 + lines as u64;
        let end_line: u32 = if end64 > h as u64 {
            h
        } else {
            end64 as u32
        };
        let dlen = self.data.len();
        let mut line_start = self.index_of(start_line as usize);
        let mut k: u32 = start_line;
        while k < end_line
            invariant
                self.wf(),
                self.header == old(self).header,
                self.terminator == old(self).terminator,
                self.misc_chunks == old(self).misc_chunks,
                sw == self.header.scanline_width,
                h == self.header.metadata.height,
                ct == self.header.metadata.color_type,
                bd == self.header.metadata.bit_depth,
                1 <= sw,
                start_line <= k <= end_line,
                end_line <= h,
                line_start == k * sw,
                dlen == self.data@.len(),
                self.data@.len() == old(self).data@.len(),
                forall|i: int|
                    0 <= i < dlen && !(start_line * sw <= i < k * sw) ==> self.data@[i] == old(
                        self,
                    ).data@[i],
                forall|j: int|
                    start_line <= j < k ==> #[trigger] spec_line_removed_at(
                        old(self).data@,
                        self.data@,
                        sw as int,
                        ct,
                        bd,
                        j,
                    ),
            decreases end_line - k,
        {
            proof {
                assert(k * sw + sw <= h * sw) by (nonlinear_arith)
                    requires
                        0 <= k < h,
                        1 <= sw,
                ;
                assert((k + 1) * sw == k * sw + sw) by (nonlinear_arith);
                assert(h * sw == sw * h) by (nonlinear_arith);
                assert(line_start + sw <= dlen);
                assert((k - 1) * sw == k * sw - sw) by (nonlinear_arith);
                assert(self.data@[(k as int) * (sw as int)] <= 4);
            }
            let range = MemoryRange::new(line_start, line_start + sw, ct, bd);
            let mut line = match ScanLine::from_range(&self.data, range) {
                Some(line) => line,
                Option::None => unreached(),
            };
            let ghost pre = self.data@;
            let ghost line_v = line;
            let ghost prev_v = if k > 0 {
                Some(spec_line_at(sw as int, ct, bd, FilterType::NoFilter, k - 1))
            } else {
                Option::<ScanLine>::None
            };
            if k > 0 {
                let p = ScanLine::new(FilterType::NoFilter, line_start - sw, line_start, ct, bd);
                line.remove_filter(&mut self.data, Some(&p));
            } else {
                line.remove_filter(&mut self.data, Option::None);
            }
            proof {
                let b = self.data@;
                let a = old(self).data@;
                let bpp = spec_bytes_per_pixel(ct, bd);
                let ki = k as int;
                let swi = sw as int;
                assert(start_line * swi <= ki * swi) by (nonlinear_arith)
                    requires
                        start_line <= ki,
                        0 <= swi,
                ;
                assert(spec_line_remove_op(pre, b, line_v, prev_v, line_v.filter_type));
                // the scanline's raw bytes were untouched before this pass
                assert(pre[ki * swi] == a[ki * swi]);
                assert(line_v.filter_type == spec_filter_of_code(a[ki * swi]));
                // the up neighbors read from the pre-pass buffer equal the
                // post-pass buffer: the pass only wrote this scanline
                assert forall|i: int| ki * swi + 1 <= i < ki * swi + swi implies b[i]
                    == spec_recon_byte(
                    spec_filter_of_code(a[ki * swi]),
                    a[i],
                    spec_left(b, line_v, i, bpp),
                    spec_up(b, line_v, prev_v, i),
                    spec_upleft(b, line_v, prev_v, i, bpp),
                ) by {
                    assert(pre[i] == a[i]);
                    assert(spec_up(pre, line_v, prev_v, i) == spec_up(b, line_v, prev_v, i));
                    assert(spec_upleft(pre, line_v, prev_v, i, bpp) == spec_upleft(
                        b,
                        line_v,
                        prev_v,
                        i,
                        bpp,
                    ));
                }
                assert(spec_line_removed_at(a, b, swi, ct, bd, ki));
                // scanlines already reconstructed keep their property: this
                // pass wrote nothing below k * sw
                assert forall|j: int| start_line <= j < k implies #[trigger] spec_line_removed_at(
                    a,
                    b,
                    swi,
                    ct,
                    bd,
                    j,
                ) by {
                    assert(spec_line_removed_at(a, pre, swi, ct, bd, j));
                    assert((j + 1) * swi == j * swi + swi) by (nonlinear_arith);
                    assert(j * swi + swi <= ki * swi) by (nonlinear_arith)
                        requires
                            j < ki,
                            0 < swi,
                    ;
                    assert((j - 1) * swi == j * swi - swi) by (nonlinear_arith);
                    assert forall|i: int| 0 <= i < ki * swi implies b[i] == pre[i] by {}
                    let ftj = spec_filter_of_code(a[j * swi]);
                    let linej = spec_line_at(swi, ct, bd, ftj, j);
                    let prevj = if j > 0 {
                        Some(spec_line_at(swi, ct, bd, FilterType::NoFilter, j - 1))
                    } else {
                        Option::<ScanLine>::None
                    };
                    assert forall|i: int| j * swi + 1 <= i < j * swi + swi implies b[i]
                        == spec_recon_byte(
                        ftj,
                        a[i],
                        spec_left(b, linej, i, bpp),
                        spec_up(b, linej, prevj, i),
                        spec_upleft(b, linej, prevj, i, bpp),
                    ) by {
                        assert(b[i] == pre[i]);
                        assert(spec_left(pre, linej, i, bpp) == spec_left(b, linej, i, bpp));
                        assert(spec_up(pre, linej, prevj, i) == spec_up(b, linej, prevj, i));
                        assert(spec_upleft(pre, linej, prevj, i, bpp) == spec_upleft(
                            b,
                            linej,
                            prevj,
                            i,
                            bpp,
                        ));
                    }
                }
                // every filter tag stays valid: 0 in the processed span,
                // untouched elsewhere
                assert forall|j: int| 0 <= j < h implies #[trigger] b[j * swi] <= 4 by {
                    assert(j * swi + swi <= h * swi) by (nonlinear_arith)
                        requires
                            0 <= j < h,
                            0 < swi,
                    ;
                    if start_line <= j < k {
                        assert(spec_line_removed_at(a, b, swi, ct, bd, j));
                    } else if j == ki {
                    } else {
                        if j < start_line {
                            assert(j * swi + swi <= start_line * swi) by (nonlinear_arith)
                                requires
                                    j + 1 <= start_line,
                                    0 <= swi,
                            ;
                        } else {
                            assert(ki * swi + swi <= j * swi) by (nonlinear_arith)
                                requires
                                    ki + 1 <= j,
                                    0 <= swi,
                            ;
                        }
                        assert(b[j * swi] == pre[j * swi]);
                        assert(pre[j * swi] == a[j * swi]);
                        assert(a[j * swi] <= 4);
                    }
                }
            }
            k = k + 1;
            line_start = line_start + sw;
        }
    }

    /// Removes the filters from every scanline, top to bottom, leaving every
    /// tag byte 0.
    pub fn remove_filter(&mut self)
        requires
            old(self).wf(),
        ensures
            final(self).wf(),
            final(self).header == old(self).header,
            final(self).terminator == old(self).terminator,
            final(self).misc_chunks == old(self).misc_chunks,
            spec_removed_from(
                old(self).data@,
                final(self).data@,
                old(self).spec_scanline_width(),
                old(self).header.metadata.color_type,
                old(self).header.metadata.bit_depth,
                0,
                old(self).spec_height(),
            ),
    {
        let h = self.height();
        self.remove_filter_from(0, h);
    }

    /// Applies `filter_type` to scanlines `[from, from + lines)` (clamped to
    /// the image's height), walking bottom to top so every neighbor read is
    /// still the raw sample, and rewrites each tag byte to the filter's
    /// code.
    pub fn apply_filter_from(&mut self, filter_type: FilterType, from: u32, lines: u32)
        requires
            old(self).wf(),
        ensures
            final(self).wf(),
            final(self).header == old(self).header,
            final(self).terminator == old(self).terminator,
            final(self).misc_chunks == old(self).misc_chunks,
            ({
                let h = old(self).spec_height();
                let s = if from as int <= h {
                    from as int
                } else {
                    h
                };
                let e = if from + lines <= h {
                    from + lines
                } else {
                    h
                };
                spec_applied_from(
                    old(self).data@,
                    final(self).data@,
                    old(self).spec_scanline_width(),
                    old(self).header.metadata.color_type,
                    old(self).header.metadata.bit_depth,
                    filter_type,
                    s,
                    e,
                )
            }),
    {
        let sw = self.header.scan_line_width();
        let h = self.header.height();
        let ct = self.header.color_type();
        let bd = self.header.bit_depth();
        let start_line: u32 = if from > h {
            h
        } else {
            from
        };
        let end64: u64 = from as u64 + lines as u64;
        let end_line: u32 = if end64 > h as u64 {
            h
        } else {
            end64 as u32
        };
        let dlen = self.data.len();
        let mut line_start = self.index_of(end_line as usize);
        let mut k: u32 = end_line;
        while k > start_line
            invariant
                self.wf(),
                self.header == old(self).header,
                self.terminator == old(self).terminator,
                self.misc_chunks == old(self).misc_chunks,
                sw == self.header.scanline_width,
                h == self.header.metadata.height,
                ct == self.header.metadata.color_type,
                bd == self.header.metadata.bit_depth,
                1 <= sw,
                start_line <= k <= end_line,
                end_line <= h,
                line_start == k * sw,
                dlen == self.data@.len(),
                self.data@.len() == old(self).data@.len(),
                forall|i: int|
                    0 <= i < dlen && !(k * sw <= i < end_line * sw) ==> self.data@[i] == old(
                        self,
                    ).data@[i],
                forall|j: int|
                    k <= j < end_line ==> #[trigger] spec_line_applied_at(
                        old(self).data@,
                        self.data@,
                        sw as int,
                        ct,
                        bd,
                        filter_type,
                        j,
                    ),
            decreases k - start_line,
        {
            k = k - 1;
            proof {
                assert(k * sw + sw <= h * sw) by (nonlinear_arith)
                    requires
                        0 <= k < h,
                        1 <= sw,
                ;
                assert((k + 1) * sw == k * sw + sw) by (nonlinear_arith);
                assert(h * sw == sw * h) by (nonlinear_arith);
                assert((k + 1) * sw <= end_line * sw) by (nonlinear_arith)
                    requires
                        k + 1 <= end_line,
                        0 <= sw,
                ;
                assert((k - 1) * sw == k * sw - sw) by (nonlinear_arith);
                assert(start_line * sw <= k * sw) by (nonlinear_arith)
                    requires
                        start_line <= k,
                        0 <= sw,
                ;
            }
            line_start = line_start - sw;
            proof {
                assert(line_start + sw <= dlen);
                assert(self.data@[(k as int) * (sw as int)] <= 4);
            }
            let range = MemoryRange::new(line_start, line_start + sw, ct, bd);
            let mut line = match ScanLine::from_range(&self.data, range) {
                Some(line) => line,
                Option::None => unreached(),
            };
            let ghost pre = self.data@;
            let ghost line_v = line;
            let ghost prev_v = if k > 0 {
                Some(spec_line_at(sw as int, ct, bd, FilterType::NoFilter, k - 1))
            } else {
                Option::<ScanLine>::None
            };
            if k > 0 {
                let p = ScanLine::new(FilterType::NoFilter, line_start - sw, line_start, ct, bd);
                line.apply_filter(&mut self.data, filter_type, Some(&p));
            } else {
                line.apply_filter(&mut self.data, filter_type, Option::None);
            }
            proof {
                let b = self.data@;
                let a = old(self).data@;
                let bpp = spec_bytes_per_pixel(ct, bd);
                let ki = k as int;
                let swi = sw as int;
                assert(spec_line_apply_op(pre, b, line_v, prev_v, filter_type));
                let line_f = spec_line_at(swi, ct, bd, filter_type, ki);
                // the pass has not yet touched this scanline or the one
                // above it, so the raw neighbors it read equal the original
                assert forall|i: int| ki * swi + 1 <= i < ki * swi + swi implies b[i]
                    == spec_filt_byte(
                    filter_type,
                    a[i],
                    spec_left(a, line_f, i, bpp),
                    spec_up(a, line_f, prev_v, i),
                    spec_upleft(a, line_f, prev_v, i, bpp),
                ) by {
                    assert(pre[i] == a[i]);
                    assert(b[i] == spec_filt_byte(
                        filter_type,
                        pre[i],
                        spec_left(pre, line_v, i, bpp),
                        spec_up(pre, line_v, prev_v, i),
                        spec_upleft(pre, line_v, prev_v, i, bpp),
                    ));
                    assert(spec_left(pre, line_v, i, bpp) == spec_left(a, line_f, i, bpp));
                    assert(spec_up(pre, line_v, prev_v, i) == spec_up(a, line_f, prev_v, i));
                    assert(spec_upleft(pre, line_v, prev_v, i, bpp) == spec_upleft(
                        a,
                        line_f,
                        prev_v,
                        i,
                        bpp,
                    ));
                }
                assert(spec_line_applied_at(a, b, swi, ct, bd, filter_type, ki));
                // scanlines already filtered keep their property: this pass
                // wrote nothing at or above (k + 1) * sw
                assert forall|j: int| ki + 1 <= j < end_line implies #[trigger] spec_line_applied_at(
                    a,
                    b,
                    swi,
                    ct,
                    bd,
                    filter_type,
                    j,
                ) by {
                    assert(spec_line_applied_at(a, pre, swi, ct, bd, filter_type, j));
                    assert((j + 1) * swi == j * swi + swi) by (nonlinear_arith);
                    assert(ki * swi + swi <= j * swi) by (nonlinear_arith)
                        requires
                            ki + 1 <= j,
                            0 < swi,
                    ;
                    assert(j * swi + swi <= h * swi) by (nonlinear_arith)
                        requires
                            j + 1 <= h,
                            0 < swi,
                    ;
                    assert forall|i: int| j * swi <= i < j * swi + swi implies b[i] == pre[i] by {
                        assert(ki * swi + swi <= i < h * swi);
                    }
                }
                // every filter tag stays valid: the filter's code in the
                // processed span, untouched elsewhere
                assert forall|j: int| 0 <= j < h implies #[trigger] b[j * swi] <= 4 by {
                    assert(j * swi + swi <= h * swi) by (nonlinear_arith)
                        requires
                            0 <= j < h,
                            0 < swi,
                    ;
                    if ki <= j < end_line {
                        assert(spec_line_applied_at(a, b, swi, ct, bd, filter_type, j));
                    } else {
                        if j < ki {
                            assert(j * swi + swi <= ki * swi) by (nonlinear_arith)
                                requires
                                    j + 1 <= ki,
                                    0 <= swi,
                            ;
                        } else {
                            assert(end_line * swi <= j * swi) by (nonlinear_arith)
                                requires
                                    end_line <= j,
                                    0 <= swi,
                            ;
                        }
                        assert(b[j * swi] == pre[j * swi]);
                        assert(pre[j * swi] == a[j * swi]);
                        assert(a[j * swi] <= 4);
                    }
                }
            }
        }
    }

    /// Applies `filter_type` to every scanline, bottom to top.
    pub fn apply_filter(&mut self, filter: FilterType)
        requires
            old(self).wf(),
        ensures
            final(self).wf(),
            final(self).header == old(self).header,
            final(self).terminator == old(self).terminator,
            final(self).misc_chunks == old(self).misc_chunks,
            spec_applied_from(
                old(self).data@,
                final(self).data@,
                old(self).spec_scanline_width(),
                old(self).header.metadata.color_type,
                old(self).header.metadata.bit_depth,
                filter,
                0,
                old(self).spec_height(),
            ),
    {
        let h = self.height();
        self.apply_filter_from(filter, 0, h);
    }

    /// Calls `modifier` once per scanline, top to bottom, handing it the
    /// scanline's view and a copy of its pixel bytes; the returned filter
    /// type is written to the tag byte and the returned bytes replace the
    /// pixel bytes, as many as the scanline holds.
    pub fn foreach_scanline<F: Fn(ScanLine, Vec<u8>) -> (FilterType, Vec<u8>)>(
        &mut self,
        modifier: F,
    )
        requires
            old(self).wf(),
            forall|line: ScanLine, bytes: Vec<u8>|
                #[trigger] call_requires(modifier, (line, bytes)),
        ensures
            final(self).wf(),
            final(self).header == old(self).header,
            final(self).terminator == old(self).terminator,
            final(self).misc_chunks == old(self).misc_chunks,
            final(self).data@.len() == old(self).data@.len(),
            forall|k: int|
                0 <= k < old(self).spec_height() ==> spec_scanline_modified(
                    old(self).data@,
                    final(self).data@,
                    old(self).spec_scanline_width(),
                    old(self).header.metadata.color_type,
                    old(self).header.metadata.bit_depth,
                    k,
                    modifier,
                ),
    {
        let sw = self.header.scan_line_width();
        let h = self.header.height() as usize;
        let ct = self.header.color_type();
        let bd = self.header.bit_depth();
        let dlen = self.data.len();
        let mut line_start: usize = 0;
        let mut k: usize = 0;
        while k < h
            invariant
                self.wf(),
                self.header == old(self).header,
                self.terminator == old(self).terminator,
                self.misc_chunks == old(self).misc_chunks,
                sw == self.header.scanline_width,
                h == self.header.metadata.height,
                ct == self.header.metadata.color_type,
                bd == self.header.metadata.bit_depth,
                1 <= sw,
                k <= h,
                line_start == k * sw,
                dlen == self.data@.len(),
                self.data@.len() == old(self).data@.len(),
                forall|line: ScanLine, bytes: Vec<u8>|
                    #[trigger] call_requires(modifier, (line, bytes)),
                forall|i: int| k * sw <= i < dlen ==> self.data@[i] == old(self).data@[i],
                forall|j: int|
                    0 <= j < k ==> spec_scanline_modified(
                        old(self).data@,
                        self.data@,
                        sw as int,
                        ct,
                        bd,
                        j,
                        modifier,
                    ),
            decreases h - k,
        {
            proof {
                assert(k * sw + sw <= h * sw) by (nonlinear_arith)
                    requires
                        0 <= k < h,
                        1 <= sw,
                ;
                assert((k + 1) * sw == k * sw + sw) by (nonlinear_arith);
                assert(h * sw == sw * h) by (nonlinear_arith);
                assert(line_start + sw <= dlen);
                assert(self.data@[(k as int) * (sw as int)] <= 4);
            }
            let range = MemoryRange::new(line_start, line_start + sw, ct, bd);
            let mut line = match ScanLine::from_range(&self.data, range) {
                Some(line) => line,
                Option::None => unreached(),
            };
            let mut bytes: Vec<u8> = Vec::new();
            line.read_to_end(&self.data, &mut bytes);
            let ghost line_v = line;
            let ghost bytes_v = bytes;
            let ghost pre = self.data@;
            let (new_filter, new_bytes) = modifier(line, bytes);
            line.write(&mut self.data, new_bytes.as_slice());
            line.set_filter_type(&mut self.data, new_filter);
            proof {
                let swi = sw as int;
                let ki = k as int;
                let a = old(self).data@;
                let b = self.data@;
                assert(bytes_v@ =~= a.subrange(ki * swi + 1, ki * swi + swi));
                assert(spec_scanline_witness(
                    a,
                    b,
                    swi,
                    ct,
                    bd,
                    ki,
                    modifier,
                    bytes_v,
                    (new_filter, new_bytes),
                )) by {
                    assert(call_ensures(modifier, (line_v, bytes_v), (new_filter, new_bytes)));
                    assert forall|i: int| 0 <= i < swi - 1 implies #[trigger] b[ki * swi + 1 + i]
                        == (if i < new_bytes@.len() {
                        new_bytes@[i]
                    } else {
                        a[ki * swi + 1 + i]
                    }) by {
                        assert(pre[ki * swi + 1 + i] == a[ki * swi + 1 + i]);
                    }
                }
                assert(spec_scanline_modified(a, b, swi, ct, bd, ki, modifier));
                assert forall|j: int| 0 <= j < ki + 1 implies spec_scanline_modified(
                    a,
                    b,
                    swi,
                    ct,
                    bd,
                    j,
                    modifier,
                ) by {
                    if j < ki {
                        assert(spec_scanline_modified(a, pre, swi, ct, bd, j, modifier));
                        assert((j + 1) * swi == j * swi + swi) by (nonlinear_arith);
                        assert(j * swi + swi <= ki * swi) by (nonlinear_arith)
                            requires
                                j + 1 <= ki,
                                0 < swi,
                        ;
                        let (v, out) = choose|v: Vec<u8>, out: (FilterType, Vec<u8>)|
                            spec_scanline_witness(a, pre, swi, ct, bd, j, modifier, v, out);
                        assert(spec_scanline_witness(a, b, swi, ct, bd, j, modifier, v, out));
                    }
                }
                // every filter tag stays valid: each pass writes a tag code
                assert forall|j: int| 0 <= j < h implies #[trigger] b[j * swi] <= 4 by {
                    assert(j * swi + swi <= h * swi) by (nonlinear_arith)
                        requires
                            0 <= j < h,
                            0 < swi,
                    ;
                    if j < ki + 1 {
                        assert(spec_scanline_modified(a, b, swi, ct, bd, j, modifier));
                        let (v, out) = choose|v: Vec<u8>, out: (FilterType, Vec<u8>)|
                            spec_scanline_witness(a, b, swi, ct, bd, j, modifier, v, out);
                        assert(b[j * swi] == spec_filter_code(out.0));
                    } else {
                        assert(ki * swi + swi <= j * swi) by (nonlinear_arith)
                            requires
                                ki + 1 <= j,
                                0 <= swi,
                        ;
                        assert(b[j * swi] == a[j * swi]);
                    }
                }
            }
            k = k + 1;
            line_start = line_start + sw;
        }
    }

    /// Swaps the spans of `lines` scanlines starting at scanlines `src` and
    /// `dest`, through a temporary copy so overlapping spans are handled;
    /// where they overlap, the bytes moved into the destination span win.
    pub fn transpose(&mut self, src: usize, dest: usize, lines: u32)
        requires
            old(self).wf(),
            src + lines <= old(self).spec_height(),
            dest + lines <= old(self).spec_height(),
        ensures
            final(self).wf(),
            final(self).header == old(self).header,
            final(self).terminator == old(self).terminator,
            final(self).misc_chunks == old(self).misc_chunks,
            spec_transposed(
                old(self).data@,
                final(self).data@,
                src * old(self).spec_scanline_width(),
                dest * old(self).spec_scanline_width(),
                lines * old(self).spec_scanline_width(),
            ),
    {
        let ghost swi = self.spec_scanline_width();
        let ghost h = self.spec_height();
        let (src_start, src_end) = self.scan_line_range(src, lines);
        let (dest_start, dest_end) = self.scan_line_range(dest, lines);
        let len = src_end - src_start;
        let dlen = self.data.len();
        proof {
            assert((src + lines) * swi == src * swi + lines * swi) by (nonlinear_arith);
            assert((dest + lines) * swi == dest * swi + lines * swi) by (nonlinear_arith);
        }
        let mut tmp_src: Vec<u8> = Vec::new();
        let mut i: usize = 0;
        while i < len
            invariant
                i <= len,
                src_start + len <= dlen,
                dlen == self.data@.len(),
                tmp_src@.len() == i,
                forall|j: int| 0 <= j < i ==> tmp_src@[j] == self.data@[src_start + j],
            decreases len - i,
        {
            tmp_src.push(self.data[src_start + i]);
            i = i + 1;
        }
        let mut tmp_dst: Vec<u8> = Vec::new();
        let mut i: usize = 0;
        while i < len
            invariant
                i <= len,
                dest_start + len <= dlen,
                dlen == self.data@.len(),
                tmp_dst@.len() == i,
                forall|j: int| 0 <= j < i ==> tmp_dst@[j] == self.data@[dest_start + j],
            decreases len - i,
        {
            tmp_dst.push(self.data[dest_start + i]);
            i = i + 1;
        }
        let ghost a = self.data@;
        let mut i: usize = 0;
        while i < len
            invariant
                i <= len,
                src_start + len <= dlen,
                dlen == self.data@.len(),
                tmp_dst@.len() == len,
                forall|j: int| 0 <= j < len ==> tmp_dst@[j] == a[dest_start + j],
                forall|j: int|
                    0 <= j < dlen && !(src_start <= j < src_start + i) ==> self.data@[j] == a[j],
                forall|j: int| 0 <= j < i ==> self.data@[src_start + j] == tmp_dst@[j],
                self.header == old(self).header,
                self.terminator == old(self).terminator,
                self.misc_chunks == old(self).misc_chunks,
            decreases len - i,
        {
            self.data.set(src_start + i, tmp_dst[i]);
            i = i + 1;
        }
        let ghost mid = self.data@;
        let mut i: usize = 0;
        while i < len
            invariant
                i <= len,
                dest_start + len <= dlen,
                dlen == self.data@.len(),
                tmp_src@.len() == len,
                forall|j: int| 0 <= j < len ==> tmp_src@[j] == a[src_start + j],
                forall|j: int|
                    0 <= j < dlen && !(dest_start <= j < dest_start + i) ==> self.data@[j] == mid[j],
                forall|j: int| 0 <= j < i ==> self.data@[dest_start + j] == tmp_src@[j],
                self.header == old(self).header,
                self.terminator == old(self).terminator,
                self.misc_chunks == old(self).misc_chunks,
            decreases len - i,
        {
            self.data.set(dest_start + i, tmp_src[i]);
            i = i + 1;
        }
        proof {
            let b = self.data@;
            let srci = src_start as int;
            let dsti = dest_start as int;
            let leni = len as int;
            assert forall|j: int| 0 <= j < dlen implies #[trigger] b[j] == (if dsti <= j < dsti
                + leni {
                a[srci + (j - dsti)]
            } else if srci <= j < srci + leni {
                a[dsti + (j - srci)]
            } else {
                a[j]
            }) by {
                if dsti <= j < dsti + leni {
                    assert(b[j] == tmp_src@[j - dsti]);
                } else if srci <= j < srci + leni {
                    assert(b[j] == mid[j]);
                    assert(mid[j] == tmp_dst@[j - srci]);
                } else {
                    assert(b[j] == mid[j]);
                    assert(mid[j] == a[j]);
                }
            }
            // every filter tag stays valid: each tag position receives the
            // tag of some scanline of the original buffer
            assert forall|p: int| 0 <= p < h implies #[trigger] b[p * swi] <= 4 by {
                let j = p * swi;
                assert(p * swi + swi <= h * swi) by (nonlinear_arith)
                    requires
                        0 <= p < h,
                        0 < swi,
                ;
                assert(h * swi == swi * h) by (nonlinear_arith);
                if dsti <= j < dsti + leni {
                    let q = src + p - dest;
                    assert(srci + (j - dsti) == q * swi) by (nonlinear_arith)
                        requires
                            srci == src * swi,
                            dsti == dest * swi,
                            j == p * swi,
                            q == src + p - dest,
                    ;
                    assert(dest * swi <= p * swi < dest * swi + lines * swi ==> dest <= p < dest
                        + lines) by (nonlinear_arith)
                        requires
                            0 < swi,
                    ;
                    assert(0 <= q < h);
                    assert(a[q * swi] <= 4);
                } else if srci <= j < srci + leni {
                    let q = dest + p - src;
                    assert(dsti + (j - srci) == q * swi) by (nonlinear_arith)
                        requires
                            srci == src * swi,
                            dsti == dest * swi,
                            j == p * swi,
                            q == dest + p - src,
                    ;
                    assert(src * swi <= p * swi < src * swi + lines * swi ==> src <= p < src
                        + lines) by (nonlinear_arith)
                        requires
                            0 < swi,
                    ;
                    assert(0 <= q < h);
                    assert(a[q * swi] <= 4);
                } else {
                    assert(a[p * swi] <= 4);
                }
            }
        }
    }


    /// Serializes the image: signature, IHDR record, ancillary records in
    /// their original order, one synthesized IDAT record holding the
    /// freshly deflated decoded buffer, and the IEND record, appended to
    /// `buffer`. Fails, appending nothing, only when the decoded buffer is
    /// too long for the compressor or the compressed stream is too long for
    /// a chunk's length field.
    pub fn encode(&self, buffer: &mut Vec<u8>) -> (r: Result<(), PngError>)
        requires
            self.wf(),
        ensures
            r is Ok <==> (self.data@.len() <= u32::MAX && spec_deflate(self.data@).len()
                <= u32::MAX),
            r is Err ==> r == Err::<(), PngError>(PngError::DeflateFailure) && final(buffer)@
                == old(buffer)@,
            r is Ok ==> final(buffer)@ == old(buffer)@ + spec_png_bytes(self.model()),
            r is Ok ==> spec_inflate(spec_deflate(self.data@), self.data@.len()) == Some(
                self.data@,
            ) && spec_deflate(self.data@).len() > 0,
    {
        let idat_list = match create_idat_chunk(self) {
            Ok(list) => list,
            Err(e) => {
                return Err(e);
            },
        };
        buffer.push(0x89);
        buffer.push(0x50);
        buffer.push(0x4E);
        buffer.push(0x47);
        buffer.push(0x0D);
        buffer.push(0x0A);
        buffer.push(0x1A);
        buffer.push(0x0A);
        proof {
            assert(buffer@ =~= old(buffer)@ + spec_signature());
        }
        self.header.encode(buffer);
        let ghost m = self.model();
        let ghost base = buffer@;
        proof {
            assert(base == old(buffer)@ + spec_signature() + spec_chunk_bytes(
                m.header.chunk.tag,
                m.header.chunk.data,
                m.header.chunk.crc,
            ));
            assert(spec_concat_chunks(m.misc.take(0)) =~= Seq::<u8>::empty());
            assert(base + spec_concat_chunks(m.misc.take(0)) =~= base);
        }
        let mut j: usize = 0;
        let mlen = self.misc_chunks.len();
        while j < mlen
            invariant
                j <= mlen,
                mlen == self.misc_chunks@.len(),
                self.wf(),
                m == self.model(),
                buffer@ == base + spec_concat_chunks(m.misc.take(j as int)),
            decreases mlen - j,
        {
            let chunk = &self.misc_chunks[j];
            chunk.encode(buffer);
            j = j + 1;
            proof {
                assert(m.misc.take(j as int).drop_last() =~= m.misc.take(j - 1));
                assert(m.misc.take(j as int).last() == spec_chunk_model(
                    self.misc_chunks@[j - 1],
                ));
                assert(buffer@ =~= base + spec_concat_chunks(m.misc.take(j as int)));
            }
        }
        proof {
            assert(m.misc.take(mlen as int) =~= m.misc);
        }
        let idat = &idat_list[0];
        idat.encode(buffer);
        self.terminator.encode(buffer);
        proof {
            assert(buffer@ =~= old(buffer)@ + spec_png_bytes(m));
        }
        Ok(())
    }

    /// Views of every scanline of the image; there are always exactly as
    /// many as the image is high.
    pub fn scan_lines(&self) -> (r: Vec<ScanLine>)
        requires
            self.wf(),
        ensures
            r@.len() == self.spec_height(),
            forall|j: int|
                0 <= j < r@.len() ==> r@[j] == spec_line_at(
                    self.spec_scanline_width(),
                    self.header.metadata.color_type,
                    self.header.metadata.bit_depth,
                    spec_filter_of_code(self.data@[j * self.spec_scanline_width()]),
                    j,
                ),
    {
        let h = self.header.height() as usize;
        self.scan_lines_from(0, h)
    }
}

/// Deflates the whole decoded buffer into one synthesized IDAT chunk with
/// a freshly computed CRC over the tag and payload; fails when the decoded
/// buffer is too long for the compressor or the compressed stream is too
/// long for a chunk's length field.
pub fn create_idat_chunk(png: &Png) -> (r: Result<Vec<Chunk>, PngError>)
    ensures
        r is Ok <==> (png.data@.len() <= u32::MAX && spec_deflate(png.data@).len() <= u32::MAX),
        r is Err ==> r == Err::<Vec<Chunk>, PngError>(PngError::DeflateFailure),
        r matches Ok(list) ==> {
            &&& list@.len() == 1
            &&& list@[0].chunk_type is Data
            &&& list@[0].data@ == spec_deflate(png.data@)
            &&& list@[0].crc@ == spec_idat_crc_bytes(spec_deflate(png.data@))
            &&& spec_inflate(spec_deflate(png.data@), png.data@.len()) == Some(png.data@)
            &&& spec_deflate(png.data@).len() > 0
        },
{
    let mut list: Vec<Chunk> = Vec::new();
    if png.data.len() > (u32::MAX as usize) {
        // the compressor's zero-run counter cannot take a longer input
        return Err(PngError::DeflateFailure);
    }
    let buffer = deflate(&png.data);
    if buffer.len() > (u32::MAX as usize) {
        return Err(PngError::DeflateFailure);
    }
    let mut crc_input: Vec<u8> = Vec::new();
    crc_input.push(73);
    crc_input.push(68);
    crc_input.push(65);
    crc_input.push(84);
    proof {
        assert(crc_input@ =~= spec_idat_tag());
    }
    let ghost tag_part = crc_input@;
    let mut i: usize = 0;
    let blen = buffer.len();
    while i < blen
        invariant
            i <= blen,
            blen == buffer@.len(),
            crc_input@ == tag_part + buffer@.subrange(0, i as int),
        decreases blen - i,
    {
        crc_input.push(buffer[i]);
        i = i + 1;
        proof {
            assert(crc_input@ =~= tag_part + buffer@.subrange(0, i as int));
        }
    }
    proof {
        assert(crc_input@ =~= spec_idat_tag() + buffer@);
    }
    let crc_value = crc32(&crc_input);
    let crc: [u8; 4] = [
        (crc_value / 0x1000000) as u8,
        ((crc_value / 0x10000) % 256) as u8,
        ((crc_value / 0x100) % 256) as u8,
        (crc_value % 256) as u8,
    ];
    proof {
        assert(crc@ =~= spec_be32_bytes(crc_value as int));
    }
    let chunk = Chunk::new(ChunkType::Data, buffer, crc);
    list.push(chunk);
    Ok(list)
}

} // verus!
