//! The global laws of the codec: filtering and reconstruction invert each
//! other, region passes restore the buffer, transposing twice restores the
//! buffer, and parsing what the encoder produced restores the decoded
//! buffer.

use vstd::prelude::*;
use crate::chunk::{
    lemma_be32_roundtrip, spec_be32_bytes, spec_chunk_bytes, spec_chunk_crc, spec_chunk_data,
    spec_chunk_len, spec_chunk_ok, spec_chunk_tag, spec_idat_tag, spec_iend_tag, spec_ihdr_tag,
};
use crate::codec::{spec_deflate, spec_inflate};
use crate::error::PngError;
use crate::filter::{
    lemma_byte_roundtrip, prev_wf, spec_filt_byte, spec_left, spec_line_applied,
    spec_line_removed, spec_recon_byte, spec_up, spec_upleft,
};
use crate::filter_type::{FilterType, spec_filter_code, spec_filter_of_code};
use crate::header::ColorType;
use crate::parser::{
    ChunkModel, ParserModel, PngModel, spec_build, spec_deflate_step,
    spec_empty_parser, spec_header_model, spec_header_model_ok, spec_parse, spec_parse_chunks,
    spec_step,
};
use crate::png::{
    Png, spec_applied_from, spec_concat_chunks, lemma_concat_chunks_head, spec_idat_crc_bytes,
    spec_line_applied_at, spec_line_removed_at, spec_png_bytes, spec_removed_from, spec_signature,
    spec_tags_valid, spec_transposed,
};
use crate::scan_line::{ScanLine, spec_bytes_per_pixel};

verus! {

/// Reconstructing a scanline and then filtering it with the same filter and
/// the same previous scanline restores every byte: the neighbors both
/// passes read are the reconstructed ones.
pub proof fn lemma_line_remove_then_apply(
    a: Seq<u8>,
    b: Seq<u8>,
    c: Seq<u8>,
    line: ScanLine,
    prev: Option<ScanLine>,
    ft: FilterType,
)
    requires
        line.start < line.end <= a.len(),
        prev_wf(line, prev, a.len() as int),
        spec_line_removed(a, b, line, prev, ft),
        spec_line_applied(b, c, line, prev, ft),
    ensures
        c == a,
{
    let bpp = spec_bytes_per_pixel(line.color_type, line.bit_depth);
    assert forall|i: int| 0 <= i < a.len() implies c[i] == a[i] by {
        if line.start + 1 <= i < line.end {
            assert(spec_up(a, line, prev, i) == spec_up(b, line, prev, i));
            assert(spec_upleft(a, line, prev, i, bpp) == spec_upleft(b, line, prev, i, bpp));
            lemma_byte_roundtrip(
                ft,
                a[i],
                spec_left(b, line, i, bpp),
                spec_up(b, line, prev, i),
                spec_upleft(b, line, prev, i, bpp),
            );
        }
    }
    assert(c =~= a);
}

/// One byte of the opposite round trip, by induction on the position: the
/// "left" neighbor the reconstruction pass reads is itself already
/// restored.
proof fn lemma_line_apply_then_remove_at(
    a: Seq<u8>,
    b: Seq<u8>,
    c: Seq<u8>,
    line: ScanLine,
    prev: Option<ScanLine>,
    ft: FilterType,
    i: int,
)
    requires
        line.start < line.end <= a.len(),
        prev_wf(line, prev, a.len() as int),
        spec_line_applied(a, b, line, prev, ft),
        spec_line_removed(b, c, line, prev, ft),
        line.start + 1 <= i < line.end,
    ensures
        c[i] == a[i],
    decreases i,
{
    let bpp = spec_bytes_per_pixel(line.color_type, line.bit_depth);
    if i - bpp >= line.start + 1 {
        lemma_line_apply_then_remove_at(a, b, c, line, prev, ft, i - bpp);
    }
    assert(spec_left(c, line, i, bpp) == spec_left(a, line, i, bpp));
    assert(spec_up(b, line, prev, i) == spec_up(a, line, prev, i));
    assert(spec_upleft(b, line, prev, i, bpp) == spec_upleft(a, line, prev, i, bpp));
    lemma_byte_roundtrip(
        ft,
        a[i],
        spec_left(a, line, i, bpp),
        spec_up(a, line, prev, i),
        spec_upleft(a, line, prev, i, bpp),
    );
}

/// Filtering a scanline and then reconstructing it with the same filter and
/// the same previous scanline restores every byte, for every filter type
/// and every pixel width, absent neighbors reading as 0.
pub proof fn lemma_line_apply_then_remove(
    a: Seq<u8>,
    b: Seq<u8>,
    c: Seq<u8>,
    line: ScanLine,
    prev: Option<ScanLine>,
    ft: FilterType,
)
    requires
        line.start < line.end <= a.len(),
        prev_wf(line, prev, a.len() as int),
        spec_line_applied(a, b, line, prev, ft),
        spec_line_removed(b, c, line, prev, ft),
    ensures
        c == a,
{
    assert forall|i: int| 0 <= i < a.len() implies c[i] == a[i] by {
        if line.start + 1 <= i < line.end {
            lemma_line_apply_then_remove_at(a, b, c, line, prev, ft, i);
        }
    }
    assert(c =~= a);
}

/// Removing the filters of a scanline span and then applying the filter
/// type the scanlines originally carried restores the buffer exactly.
pub proof fn lemma_remove_then_apply_restores(
    a: Seq<u8>,
    b: Seq<u8>,
    c: Seq<u8>,
    sw: int,
    ct: ColorType,
    bd: u8,
    t: FilterType,
    from: int,
    end: int,
)
    requires
        1 <= sw,
        0 <= from <= end,
        end * sw <= a.len(),
        spec_removed_from(a, b, sw, ct, bd, from, end),
        spec_applied_from(b, c, sw, ct, bd, t, from, end),
        forall|k: int| from <= k < end ==> #[trigger] a[k * sw] == spec_filter_code(t),
    ensures
        c == a,
{
    let bpp = spec_bytes_per_pixel(ct, bd);
    assert forall|i: int| 0 <= i < a.len() implies c[i] == a[i] by {
        if from * sw <= i < end * sw {
            let k = i / sw;
            assert((i / sw) * sw <= i < (i / sw) * sw + sw) by (nonlinear_arith)
                requires
                    1 <= sw,
                    0 <= i,
            ;
            assert(from <= k) by (nonlinear_arith)
                requires
                    from * sw <= i,
                    k == i / sw,
                    (i / sw) * sw <= i < (i / sw) * sw + sw,
                    1 <= sw,
                    0 <= from,
            ;
            assert(k < end) by (nonlinear_arith)
                requires
                    i < end * sw,
                    k == i / sw,
                    (i / sw) * sw <= i < (i / sw) * sw + sw,
                    1 <= sw,
            ;
            assert(spec_line_removed_at(a, b, sw, ct, bd, k));
            assert(spec_line_applied_at(b, c, sw, ct, bd, t, k));
            assert(a[k * sw] == spec_filter_code(t));
            assert(spec_filter_of_code(spec_filter_code(t)) == t);
            assert(spec_filter_of_code(a[k * sw]) == t);
            if i == k * sw {
                assert(c[i] == spec_filter_code(t));
            } else {
                let line = crate::png::spec_line_at(sw, ct, bd, t, k);
                let prev = if k > 0 {
                    Some(crate::png::spec_line_at(sw, ct, bd, FilterType::NoFilter, k - 1))
                } else {
                    Option::<ScanLine>::None
                };
                assert(b[i] == spec_recon_byte(
                    t,
                    a[i],
                    spec_left(b, line, i, bpp),
                    spec_up(b, line, prev, i),
                    spec_upleft(b, line, prev, i, bpp),
                ));
                assert(c[i] == spec_filt_byte(
                    t,
                    b[i],
                    spec_left(b, line, i, bpp),
                    spec_up(b, line, prev, i),
                    spec_upleft(b, line, prev, i, bpp),
                ));
                lemma_byte_roundtrip(
                    t,
                    a[i],
                    spec_left(b, line, i, bpp),
                    spec_up(b, line, prev, i),
                    spec_upleft(b, line, prev, i, bpp),
                );
            }
        }
    }
    assert(c =~= a);
}

/// Transposing a span onto another and then transposing it back restores
/// the buffer, when the two spans do not overlap.
pub proof fn lemma_transpose_involution(
    a: Seq<u8>,
    b: Seq<u8>,
    c: Seq<u8>,
    src: int,
    dst: int,
    len: int,
)
    requires
        0 <= src,
        0 <= dst,
        0 <= len,
        src + len <= a.len(),
        dst + len <= a.len(),
        src + len <= dst || dst + len <= src,
        spec_transposed(a, b, src, dst, len),
        spec_transposed(b, c, dst, src, len),
    ensures
        c == a,
{
    assert forall|i: int| 0 <= i < a.len() implies c[i] == a[i] by {}
    assert(c =~= a);
}

/// The structural facts a well-formed image's model satisfies; they are
/// what re-parsing an encoded image needs.
pub open spec fn spec_png_model_wf(m: PngModel) -> bool {
    &&& m.header.chunk.tag == spec_ihdr_tag()
    &&& m.header.chunk.crc.len() == 4
    &&& 13 <= m.header.chunk.data.len() <= u32::MAX
    &&& spec_header_model_ok(m.header.chunk.data)
    &&& m.header == spec_header_model(m.header.chunk)
    &&& m.iend.tag == spec_iend_tag()
    &&& m.iend.crc.len() == 4
    &&& m.iend.data.len() <= u32::MAX
    &&& (forall|j: int|
        0 <= j < m.misc.len() ==> {
            &&& (#[trigger] m.misc[j]).tag.len() == 4
            &&& m.misc[j].crc.len() == 4
            &&& m.misc[j].data.len() <= u32::MAX
            &&& m.misc[j].tag != spec_ihdr_tag()
            &&& m.misc[j].tag != spec_idat_tag()
            &&& m.misc[j].tag != spec_iend_tag()
        })
    &&& m.data.len() == m.header.scanline_width * m.header.height
    &&& m.header.scanline_width * m.header.height <= usize::MAX
    &&& spec_tags_valid(m.data, m.header.scanline_width, m.header.height)
}

/// A well-formed image's model is well formed.
pub proof fn lemma_png_model_wf(png: Png)
    requires
        png.wf(),
    ensures
        spec_png_model_wf(png.model()),
{
    let m = png.model();
    assert forall|j: int| 0 <= j < m.misc.len() implies {
        &&& (#[trigger] m.misc[j]).tag.len() == 4
        &&& m.misc[j].crc.len() == 4
        &&& m.misc[j].data.len() <= u32::MAX
        &&& m.misc[j].tag != spec_ihdr_tag()
        &&& m.misc[j].tag != spec_idat_tag()
        &&& m.misc[j].tag != spec_iend_tag()
    } by {
        assert(m.misc[j] == crate::parser::spec_chunk_model(png.misc_chunks@[j]));
    }
}

/// Parsing the serialization of one chunk record classifies exactly that
/// chunk and then goes on with the remaining bytes, or stops at IEND.
proof fn lemma_parse_chunk_step(
    t: Seq<u8>,
    d: Seq<u8>,
    crc: Seq<u8>,
    rest: Seq<u8>,
    st: ParserModel,
)
    requires
        t.len() == 4,
        crc.len() == 4,
        d.len() <= u32::MAX,
    ensures
        ({
            let s = spec_chunk_bytes(t, d, crc) + rest;
            let c = ChunkModel { tag: t, data: d, crc: crc };
            spec_parse_chunks(s, st) == match spec_step(st, c) {
                Err(e) => Err::<ParserModel, PngError>(e),
                Ok(st2) => {
                    if t == spec_iend_tag() {
                        Ok::<ParserModel, PngError>(st2)
                    } else {
                        spec_parse_chunks(rest, st2)
                    }
                },
            }
        }),
{
    lemma_be32_roundtrip(d.len() as int);
    let s = spec_chunk_bytes(t, d, crc) + rest;
    assert(s.len() == 12 + d.len() + rest.len());
    assert(s.subrange(0, 4) =~= spec_be32_bytes(d.len() as int));
    assert(spec_chunk_len(s) == d.len());
    assert(spec_chunk_ok(s));
    assert(s.subrange(4, 8) =~= t);
    assert(s.subrange(8, 8 + d.len() as int) =~= d);
    assert(s.subrange(8 + d.len() as int, 12 + d.len() as int) =~= crc);
    assert(s.skip(d.len() + 12 as int) =~= rest);
    let c = ChunkModel { tag: spec_chunk_tag(s), data: spec_chunk_data(s), crc: spec_chunk_crc(s) };
    assert(c == ChunkModel { tag: t, data: d, crc: crc });
}

/// Parsing the concatenated serializations of ancillary chunks appends
/// exactly those chunks to the state and then goes on with the remaining
/// bytes.
proof fn lemma_parse_misc_chunks(misc: Seq<ChunkModel>, tail: Seq<u8>, st: ParserModel)
    requires
        forall|j: int|
            0 <= j < misc.len() ==> {
                &&& (#[trigger] misc[j]).tag.len() == 4
                &&& misc[j].crc.len() == 4
                &&& misc[j].data.len() <= u32::MAX
                &&& misc[j].tag != spec_ihdr_tag()
                &&& misc[j].tag != spec_idat_tag()
                &&& misc[j].tag != spec_iend_tag()
            },
    ensures
        spec_parse_chunks(spec_concat_chunks(misc) + tail, st) == spec_parse_chunks(
            tail,
            ParserModel { misc: st.misc + misc, ..st },
        ),
    decreases misc.len(),
{
    if misc.len() == 0 {
        assert(spec_concat_chunks(misc) + tail =~= tail);
        assert(st.misc + misc =~= st.misc);
        assert(ParserModel { misc: st.misc + misc, ..st } == st);
    } else {
        lemma_concat_chunks_head(misc);
        let c = misc[0];
        let rest = spec_concat_chunks(misc.skip(1)) + tail;
        assert(spec_concat_chunks(misc) + tail =~= spec_chunk_bytes(c.tag, c.data, c.crc) + rest);
        lemma_parse_chunk_step(c.tag, c.data, c.crc, rest, st);
        let st2 = ParserModel { misc: st.misc.push(c), ..st };
        assert(spec_step(st, c) == Ok::<ParserModel, PngError>(st2));
        lemma_parse_misc_chunks(misc.skip(1), tail, st2);
        assert(st2.misc + misc.skip(1) =~= st.misc + misc);
        assert(ParserModel { misc: st2.misc + misc.skip(1), ..st2 } == ParserModel {
            misc: st.misc + misc,
            ..st
        });
    }
}

/// Parsing the bytes the encoder produced yields the image back: the same
/// header, ancillary chunks and terminator, and a byte-identical decoded
/// buffer, even though the compressed stream may differ from the one
/// originally parsed. The compressed stream must fit a chunk's length
/// field, and inflating what was deflated gives the original bytes (the
/// fact the deflate call itself provides).
pub proof fn lemma_encode_parse_roundtrip(m: PngModel)
    requires
        spec_png_model_wf(m),
        spec_deflate(m.data).len() <= u32::MAX,
        spec_deflate(m.data).len() > 0,
        spec_inflate(spec_deflate(m.data), m.data.len()) == Some(m.data),
    ensures
        spec_parse(spec_png_bytes(m)) == Ok::<PngModel, PngError>(m),
{
    let bytes = spec_png_bytes(m);
    let hdr_bytes = spec_chunk_bytes(m.header.chunk.tag, m.header.chunk.data, m.header.chunk.crc);
    let payload = spec_deflate(m.data);
    let idat_bytes = spec_chunk_bytes(spec_idat_tag(), payload, spec_idat_crc_bytes(payload));
    let iend_bytes = spec_chunk_bytes(m.iend.tag, m.iend.data, m.iend.crc);
    assert(bytes.subrange(0, 8) =~= spec_signature());
    assert(bytes.len() >= 8);
    let st0 = spec_empty_parser();
    let rest1 = spec_concat_chunks(m.misc) + (idat_bytes + iend_bytes);
    assert(bytes.skip(8) =~= hdr_bytes + rest1);
    lemma_parse_chunk_step(m.header.chunk.tag, m.header.chunk.data, m.header.chunk.crc, rest1, st0);
    let st1 = ParserModel { header: Some(spec_header_model(m.header.chunk)), ..st0 };
    assert(spec_step(st0, m.header.chunk) == Ok::<ParserModel, PngError>(st1));
    assert(spec_parse_chunks(bytes.skip(8), st0) == spec_parse_chunks(rest1, st1)) by {
        assert(ChunkModel {
            tag: m.header.chunk.tag,
            data: m.header.chunk.data,
            crc: m.header.chunk.crc,
        } == m.header.chunk);
    }
    let tail2 = idat_bytes + iend_bytes;
    lemma_parse_misc_chunks(m.misc, tail2, st1);
    let st2 = ParserModel { misc: st1.misc + m.misc, ..st1 };
    assert(st1.misc + m.misc =~= m.misc);
    lemma_parse_chunk_step(spec_idat_tag(), payload, spec_idat_crc_bytes(payload), iend_bytes, st2);
    let idat_c = ChunkModel {
        tag: spec_idat_tag(),
        data: payload,
        crc: spec_idat_crc_bytes(payload),
    };
    let st3 = ParserModel { data: st2.data + payload, ..st2 };
    assert(spec_step(st2, idat_c) == Ok::<ParserModel, PngError>(st3));
    assert(iend_bytes =~= spec_chunk_bytes(m.iend.tag, m.iend.data, m.iend.crc) + Seq::<
        u8,
    >::empty());
    lemma_parse_chunk_step(m.iend.tag, m.iend.data, m.iend.crc, Seq::<u8>::empty(), st3);
    let st4 = ParserModel { terminator: Some(m.iend), ..st3 };
    assert(spec_step(st3, ChunkModel { tag: m.iend.tag, data: m.iend.data, crc: m.iend.crc })
        == Ok::<ParserModel, PngError>(st4)) by {
        assert(ChunkModel { tag: m.iend.tag, data: m.iend.data, crc: m.iend.crc } == m.iend);
    }
    assert(spec_parse_chunks(bytes.skip(8), st0) == Ok::<ParserModel, PngError>(st4));
    assert(st4.data =~= payload);
    assert(spec_deflate_step(st4) == Ok::<Seq<u8>, PngError>(m.data)) by {
        assert((m.header.scanline_width * m.header.height) as nat == m.data.len());
    }
    let built = spec_build(st4);
    assert(built == Ok::<PngModel, PngError>(PngModel {
        header: m.header,
        iend: m.iend,
        misc: st4.misc,
        data: m.data,
    }));
    assert(PngModel { header: m.header, iend: m.iend, misc: st4.misc, data: m.data } == m);
}


/// Once a header was recorded, walking any further chunk records up to an
/// IHDR-tagged one fails with the duplicate-IHDR error, whatever stands in
/// between.
proof fn lemma_walk_errs_on_ihdr(cs: Seq<ChunkModel>, tail: Seq<u8>, st: ParserModel, j: int)
    requires
        0 <= j < cs.len(),
        forall|k: int|
            0 <= k <= j ==> {
                &&& (#[trigger] cs[k]).tag.len() == 4
                &&& cs[k].crc.len() == 4
                &&& cs[k].data.len() <= u32::MAX
            },
        forall|k: int| 0 <= k < j ==> (#[trigger] cs[k]).tag != spec_iend_tag(),
        cs[j].tag == spec_ihdr_tag(),
        st.header is Some,
    ensures
        spec_parse_chunks(spec_concat_chunks(cs) + tail, st) == Err::<ParserModel, PngError>(
            PngError::DuplicateIHDRFound,
        ),
    decreases j,
{
    let c = cs[0];
    lemma_concat_chunks_head(cs);
    let rest = spec_concat_chunks(cs.skip(1)) + tail;
    assert(spec_concat_chunks(cs) + tail =~= spec_chunk_bytes(c.tag, c.data, c.crc) + rest);
    lemma_parse_chunk_step(c.tag, c.data, c.crc, rest, st);
    assert(c == ChunkModel { tag: c.tag, data: c.data, crc: c.crc });
    if c.tag == spec_ihdr_tag() {
        assert(spec_step(st, c) == Err::<ParserModel, PngError>(PngError::DuplicateIHDRFound));
    } else {
        let st2 = spec_step(st, c)->Ok_0;
        assert(st2.header == st.header);
        assert(cs.skip(1)[j - 1] == cs[j]);
        assert forall|k: int| 0 <= k <= j - 1 implies {
            &&& (#[trigger] cs.skip(1)[k]).tag.len() == 4
            &&& cs.skip(1)[k].crc.len() == 4
            &&& cs.skip(1)[k].data.len() <= u32::MAX
        } by {
            assert(cs.skip(1)[k] == cs[k + 1]);
        }
        assert forall|k: int| 0 <= k < j - 1 implies (#[trigger] cs.skip(1)[k]).tag
            != spec_iend_tag() by {
            assert(cs.skip(1)[k] == cs[k + 1]);
        }
        lemma_walk_errs_on_ihdr(cs.skip(1), tail, st2, j - 1);
    }
}

/// From a state without a header, walking a chunk stream whose first IHDR
/// record parses and which holds a second IHDR record before any IEND fails
/// with the duplicate-IHDR error.
proof fn lemma_second_ihdr_errs(
    cs: Seq<ChunkModel>,
    tail: Seq<u8>,
    st: ParserModel,
    i: int,
    j: int,
)
    requires
        0 <= i < j < cs.len(),
        forall|k: int|
            0 <= k <= j ==> {
                &&& (#[trigger] cs[k]).tag.len() == 4
                &&& cs[k].crc.len() == 4
                &&& cs[k].data.len() <= u32::MAX
            },
        forall|k: int| 0 <= k < i ==> (#[trigger] cs[k]).tag != spec_ihdr_tag(),
        forall|k: int| 0 <= k < j ==> (#[trigger] cs[k]).tag != spec_iend_tag(),
        cs[i].tag == spec_ihdr_tag(),
        cs[j].tag == spec_ihdr_tag(),
        spec_header_model_ok(cs[i].data),
        st.header is None,
    ensures
        spec_parse_chunks(spec_concat_chunks(cs) + tail, st) == Err::<ParserModel, PngError>(
            PngError::DuplicateIHDRFound,
        ),
    decreases i,
{
    let c = cs[0];
    lemma_concat_chunks_head(cs);
    let rest = spec_concat_chunks(cs.skip(1)) + tail;
    assert(spec_concat_chunks(cs) + tail =~= spec_chunk_bytes(c.tag, c.data, c.crc) + rest);
    lemma_parse_chunk_step(c.tag, c.data, c.crc, rest, st);
    assert(c == ChunkModel { tag: c.tag, data: c.data, crc: c.crc });
    assert forall|k: int| 0 <= k <= j - 1 implies {
        &&& (#[trigger] cs.skip(1)[k]).tag.len() == 4
        &&& cs.skip(1)[k].crc.len() == 4
        &&& cs.skip(1)[k].data.len() <= u32::MAX
    } by {
        assert(cs.skip(1)[k] == cs[k + 1]);
    }
    assert forall|k: int| 0 <= k < j - 1 implies (#[trigger] cs.skip(1)[k]).tag
        != spec_iend_tag() by {
        assert(cs.skip(1)[k] == cs[k + 1]);
    }
    assert(cs.skip(1)[j - 1] == cs[j]);
    if i == 0 {
        let st2 = ParserModel { header: Some(spec_header_model(c)), ..st };
        assert(spec_step(st, c) == Ok::<ParserModel, PngError>(st2));
        lemma_walk_errs_on_ihdr(cs.skip(1), tail, st2, j - 1);
    } else {
        let st2 = spec_step(st, c)->Ok_0;
        assert(st2.header == st.header);
        assert(cs.skip(1)[i - 1] == cs[i]);
        assert forall|k: int| 0 <= k < i - 1 implies (#[trigger] cs.skip(1)[k]).tag
            != spec_ihdr_tag() by {
            assert(cs.skip(1)[k] == cs[k + 1]);
        }
        lemma_second_ihdr_errs(cs.skip(1), tail, st2, i - 1, j - 1);
    }
}

/// A stream that starts with the PNG signature and carries a second IHDR
/// chunk before the first IEND is rejected with the duplicate-IHDR error,
/// wherever in the chunk stream the second IHDR stands and whatever its
/// payload, CRC or the following bytes hold.
pub proof fn lemma_duplicate_ihdr_rejected(cs: Seq<ChunkModel>, tail: Seq<u8>, i: int, j: int)
    requires
        0 <= i < j < cs.len(),
        forall|k: int|
            0 <= k <= j ==> {
                &&& (#[trigger] cs[k]).tag.len() == 4
                &&& cs[k].crc.len() == 4
                &&& cs[k].data.len() <= u32::MAX
            },
        forall|k: int| 0 <= k < i ==> (#[trigger] cs[k]).tag != spec_ihdr_tag(),
        forall|k: int| 0 <= k < j ==> (#[trigger] cs[k]).tag != spec_iend_tag(),
        cs[i].tag == spec_ihdr_tag(),
        cs[j].tag == spec_ihdr_tag(),
        spec_header_model_ok(cs[i].data),
    ensures
        spec_parse(spec_signature() + (spec_concat_chunks(cs) + tail)) == Err::<
            PngModel,
            PngError,
        >(PngError::DuplicateIHDRFound),
{
    let bytes = spec_signature() + (spec_concat_chunks(cs) + tail);
    assert(bytes.subrange(0, 8) =~= spec_signature());
    assert(bytes.skip(8) =~= spec_concat_chunks(cs) + tail);
    lemma_second_ihdr_errs(cs, tail, spec_empty_parser(), i, j);
}

} // verus!
