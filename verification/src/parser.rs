//! The container parser: walks the chunk stream, classifies every chunk,
//! concatenates the IDAT payloads and inflates them into the decoded buffer.
//!
//! The whole walk is mirrored by spec-level functions over the byte
//! sequence; the parser's contract states that it returns exactly what the
//! spec-level parse denotes.

use vstd::prelude::*;
use vstd::slice::slice_subrange;
use crate::chunk::{
    Chunk, ChunkType, Terminator, spec_be32, spec_chunk_crc, spec_chunk_data, spec_chunk_len,
    spec_chunk_ok, spec_chunk_tag, spec_idat_tag, spec_iend_tag, spec_ihdr_tag, spec_tag_bytes,
};
use crate::codec::{inflate, spec_inflate};
use crate::error::PngError;
use crate::header::{
    ColorType, Header, spec_color_code_valid, spec_color_of_code, spec_scan_line_width,
};
use crate::png::{Png, spec_signature, spec_tags_valid};

verus! {

/// A chunk as mathematical content: its 4 tag bytes, payload and CRC.
pub struct ChunkModel {
    /// The 4 tag bytes.
    pub tag: Seq<u8>,
    /// The payload bytes.
    pub data: Seq<u8>,
    /// The 4 CRC bytes.
    pub crc: Seq<u8>,
}

/// The mathematical content of a chunk value.
pub open spec fn spec_chunk_model(c: Chunk) -> ChunkModel {
    ChunkModel { tag: spec_tag_bytes(c.chunk_type), data: c.data@, crc: c.crc@ }
}

/// An IHDR chunk as mathematical content: the preserved raw chunk and the
/// fields its payload encodes.
pub struct HeaderModel {
    /// The raw IHDR chunk.
    pub chunk: ChunkModel,
    /// The width read from payload bytes 0-3.
    pub width: int,
    /// The height read from payload bytes 4-7.
    pub height: int,
    /// The bit depth read from payload byte 8.
    pub bit_depth: u8,
    /// The color type read from payload byte 9.
    pub color_type: ColorType,
    /// The derived count of bytes per scanline, filter tag included.
    pub scanline_width: int,
}

/// Whether an IHDR payload parses into a header on this machine: 13 bytes,
/// a known color-type code, and a scanline width that fits an allocation.
pub open spec fn spec_header_model_ok(data: Seq<u8>) -> bool {
    &&& data.len() >= 13
    &&& spec_color_code_valid(data[9])
    &&& spec_scan_line_width(spec_color_of_code(data[9]), data[8], spec_be32(
        data.subrange(0, 4),
    ) as u32) <= usize::MAX
}

/// The error an IHDR payload fails with when it does not parse.
pub open spec fn spec_header_err(data: Seq<u8>) -> PngError {
    if data.len() < 13 {
        PngError::TooShortInput
    } else if !spec_color_code_valid(data[9]) {
        PngError::InvalidColorType
    } else {
        PngError::DeflateFailure
    }
}

/// The header a well-formed IHDR chunk denotes.
pub open spec fn spec_header_model(c: ChunkModel) -> HeaderModel {
    let w = spec_be32(c.data.subrange(0, 4));
    HeaderModel {
        chunk: c,
        width: w,
        height: spec_be32(c.data.subrange(4, 8)),
        bit_depth: c.data[8],
        color_type: spec_color_of_code(c.data[9]),
        scanline_width: spec_scan_line_width(spec_color_of_code(c.data[9]), c.data[8], w as u32),
    }
}

/// The parser's accumulated state: the header and terminator once seen, the
/// concatenated IDAT payload, and the ancillary chunks in encounter order.
pub struct ParserModel {
    /// The header, once an IHDR chunk was classified.
    pub header: Option<HeaderModel>,
    /// The terminator, once an IEND chunk was classified.
    pub terminator: Option<ChunkModel>,
    /// The concatenated IDAT payloads.
    pub data: Seq<u8>,
    /// The ancillary chunks in encounter order.
    pub misc: Seq<ChunkModel>,
}

/// The state a fresh parser starts from.
pub open spec fn spec_empty_parser() -> ParserModel {
    ParserModel { header: Option::None, terminator: Option::None, data: seq![], misc: seq![] }
}

/// Classifying one chunk: IHDR parses into the header and must be the only
/// one; IEND is recorded; IDAT payloads concatenate; anything else is
/// preserved as an ancillary chunk.
pub open spec fn spec_step(st: ParserModel, c: ChunkModel) -> Result<ParserModel, PngError> {
    if c.tag == spec_ihdr_tag() {
        if st.header is Some {
            Err(PngError::DuplicateIHDRFound)
        } else if !spec_header_model_ok(c.data) {
            Err(spec_header_err(c.data))
        } else {
            Ok(ParserModel { header: Some(spec_header_model(c)), ..st })
        }
    } else if c.tag == spec_iend_tag() {
        if st.terminator is Some {
            Err(PngError::DuplicateIENDFound)
        } else {
            Ok(ParserModel { terminator: Some(c), ..st })
        }
    } else if c.tag == spec_idat_tag() {
        Ok(ParserModel { data: st.data + c.data, ..st })
    } else {
        Ok(ParserModel { misc: st.misc.push(c), ..st })
    }
}

/// Walking the chunk stream: chunks are classified in order until the bytes
/// run out or an IEND chunk stops the scan; a truncated chunk fails.
pub open spec fn spec_parse_chunks(bytes: Seq<u8>, st: ParserModel) -> Result<
    ParserModel,
    PngError,
>
    decreases bytes.len(),
{
    if bytes.len() == 0 {
        Ok(st)
    } else if !spec_chunk_ok(bytes) {
        Err(PngError::TooShortInput)
    } else {
        let c = ChunkModel {
            tag: spec_chunk_tag(bytes),
            data: spec_chunk_data(bytes),
            crc: spec_chunk_crc(bytes),
        };
        match spec_step(st, c) {
            Err(e) => Err(e),
            Ok(st2) => {
                if c.tag == spec_iend_tag() {
                    Ok(st2)
                } else {
                    spec_parse_chunks(bytes.skip(spec_chunk_len(bytes) + 12), st2)
                }
            },
        }
    }
}

/// Inflating the accumulated IDAT payload into a buffer of exactly
/// `scanline_width * height` bytes; an empty payload, a missing header, an
/// impossible allocation or a rejected stream fail.
pub open spec fn spec_deflate_step(st: ParserModel) -> Result<Seq<u8>, PngError> {
    if st.data.len() == 0 {
        Err(PngError::NoIDATFound)
    } else {
        match st.header {
            Option::None => Err(PngError::NoIHDRFound),
            Some(h) => {
                if h.scanline_width * h.height > usize::MAX {
                    Err(PngError::DeflateFailure)
                } else {
                    match spec_inflate(st.data, (h.scanline_width * h.height) as nat) {
                        Option::None => Err(PngError::DeflateFailure),
                        Some(d) => Ok(d),
                    }
                }
            },
        }
    }
}

/// Building the image from the final parser state: the decoded buffer is
/// inflated, a terminator must have been seen, and every scanline's filter
/// tag must be valid.
pub open spec fn spec_build(st: ParserModel) -> Result<PngModel, PngError> {
    match spec_deflate_step(st) {
        Err(e) => Err(e),
        Ok(d) => {
            match st.terminator {
                Option::None => Err(PngError::NOIENDFound),
                Some(t) => {
                    let h = st.header->Some_0;
                    if !spec_tags_valid(d, h.scanline_width, h.height) {
                        Err(PngError::InvalidFilterType)
                    } else {
                        Ok(PngModel { header: h, iend: t, misc: st.misc, data: d })
                    }
                },
            }
        },
    }
}

/// A parsed image as mathematical content.
pub struct PngModel {
    /// The header.
    pub header: HeaderModel,
    /// The IEND chunk.
    pub iend: ChunkModel,
    /// The ancillary chunks in encounter order.
    pub misc: Seq<ChunkModel>,
    /// The decoded buffer.
    pub data: Seq<u8>,
}

/// What a PNG byte stream denotes: the signature is checked, the chunk
/// stream is walked, and the image is built, each failure with its own
/// error.
pub open spec fn spec_parse(bytes: Seq<u8>) -> Result<PngModel, PngError> {
    if !(bytes.len() >= 8 && bytes.subrange(0, 8) == spec_signature()) {
        Err(PngError::InvalidSignature)
    } else {
        match spec_parse_chunks(bytes.skip(8), spec_empty_parser()) {
            Err(e) => Err(e),
            Ok(st) => spec_build(st),
        }
    }
}

/// The chunk-stream walker: accumulates the header, terminator, IDAT
/// payload and ancillary chunks.
pub struct Parser {
    /// The header, once an IHDR chunk was found.
    pub header: Option<Header>,
    /// The terminator, once an IEND chunk was found.
    pub terminator: Option<Terminator>,
    /// The concatenated IDAT payloads.
    pub data: Vec<u8>,
    /// The ancillary chunks in encounter order.
    pub misc: Vec<Chunk>,
}

impl Parser {
    /// The parser's parts stay well formed while it runs.
    pub open spec fn wf(self) -> bool {
        &&& match self.header {
            Some(h) => h.wf(),
            Option::None => true,
        }
        &&& match self.terminator {
            Some(t) => t.inner.chunk_type is End && t.inner.data@.len() <= u32::MAX,
            Option::None => true,
        }
        &&& (forall|j: int|
            0 <= j < self.misc@.len() ==> {
                &&& self.misc@[j].chunk_type is Other
                &&& self.misc@[j].data@.len() <= u32::MAX
                &&& spec_tag_bytes(self.misc@[j].chunk_type) != spec_ihdr_tag()
                &&& spec_tag_bytes(self.misc@[j].chunk_type) != spec_idat_tag()
                &&& spec_tag_bytes(self.misc@[j].chunk_type) != spec_iend_tag()
            })
    }

    /// The parser's accumulated state as mathematical content.
    pub open spec fn model(self) -> ParserModel {
        ParserModel {
            header: match self.header {
                Some(h) => Some(spec_header_model(spec_chunk_model(h.inner))),
                Option::None => Option::None,
            },
            terminator: match self.terminator {
                Some(t) => Some(spec_chunk_model(t.inner)),
                Option::None => Option::None,
            },
            data: self.data@,
            misc: self.misc@.map_values(|c: Chunk| spec_chunk_model(c)),
        }
    }

    /// A fresh parser with nothing accumulated.
    pub fn new() -> (r: Parser)
        ensures
            r.wf(),
            r.model() == spec_empty_parser(),
    {
        let r = Parser {
            header: Option::None,
            terminator: Option::None,
            data: Vec::new(),
            misc: Vec::new(),
        };
        proof {
            assert(r.model().misc =~= spec_empty_parser().misc);
            assert(r.model().data =~= spec_empty_parser().data);
        }
        r
    }

    /// Whether an IHDR chunk was seen.
    pub fn has_ihdr(&self) -> (r: bool)
        ensures
            r == (self.header is Some),
    {
        self.header.is_some()
    }

    /// Whether an IEND chunk was seen.
    pub fn has_iend(&self) -> (r: bool)
        ensures
            r == (self.terminator is Some),
    {
        self.terminator.is_some()
    }

    /// Whether any IDAT payload bytes were seen.
    pub fn has_idat(&self) -> (r: bool)
        ensures
            r == (self.data@.len() > 0),
    {
        !self.data.is_empty()
    }

    /// Records the IHDR chunk, parsing it into the header; a second IHDR is
    /// an error.
    pub fn found_ihdr(&mut self, chunk: Chunk) -> (r: Result<(), PngError>)
        requires
            old(self).wf(),
            chunk.chunk_type is Start,
            chunk.data@.len() <= u32::MAX,
        ensures
            final(self).wf(),
            final(self).terminator == old(self).terminator,
            match r {
                Ok(()) => spec_step(old(self).model(), spec_chunk_model(chunk)) == Ok::<
                    ParserModel,
                    PngError,
                >(final(self).model()),
                Err(e) => spec_step(old(self).model(), spec_chunk_model(chunk)) == Err::<
                    ParserModel,
                    PngError,
                >(e),
            },
    {
        if self.has_ihdr() {
            return Err(PngError::DuplicateIHDRFound);
        }
        let header = Header::from_chunk(chunk)?;
        self.header = Some(header);
        proof {
            assert(final(self).model() =~= ParserModel {
                header: Some(spec_header_model(spec_chunk_model(chunk))),
                ..old(self).model()
            });
        }
        Ok(())
    }

    /// Appends an IDAT chunk's payload to the accumulated data; any other
    /// chunk type is rejected with the offending chunk.
    pub fn found_idat(&mut self, chunk: Chunk) -> (r: Result<(), PngError>)
        requires
            old(self).wf(),
        ensures
            final(self).wf(),
            final(self).terminator == old(self).terminator,
            chunk.chunk_type is Data ==> r is Ok && spec_step(
                old(self).model(),
                spec_chunk_model(chunk),
            ) == Ok::<ParserModel, PngError>(final(self).model()),
            !(chunk.chunk_type is Data) ==> r == Err::<(), PngError>(
                PngError::InvalidChunkType(chunk),
            ) && *final(self) == *old(self),
    {
        match chunk.chunk_type {
            ChunkType::Data => {
                let ghost cm = spec_chunk_model(chunk);
                let Chunk { data: mut payload, .. } = chunk;
                self.data.append(&mut payload);
                proof {
                    assert(final(self).model() =~= ParserModel {
                        data: old(self).model().data + cm.data,
                        ..old(self).model()
                    });
                }
                Ok(())
            },
            _ => Err(PngError::InvalidChunkType(chunk)),
        }
    }

    /// Records the IEND chunk as the terminator; a second IEND is an error.
    pub fn found_iend(&mut self, chunk: Chunk) -> (r: Result<(), PngError>)
        requires
            old(self).wf(),
            chunk.chunk_type is End,
            chunk.data@.len() <= u32::MAX,
        ensures
            final(self).wf(),
            r is Ok ==> final(self).terminator is Some,
            match r {
                Ok(()) => spec_step(old(self).model(), spec_chunk_model(chunk)) == Ok::<
                    ParserModel,
                    PngError,
                >(final(self).model()),
                Err(e) => spec_step(old(self).model(), spec_chunk_model(chunk)) == Err::<
                    ParserModel,
                    PngError,
                >(e),
            },
    {
        if self.has_iend() {
            return Err(PngError::DuplicateIENDFound);
        }
        self.terminator = Some(Terminator { inner: chunk });
        proof {
            assert(final(self).model() =~= ParserModel {
                terminator: Some(spec_chunk_model(chunk)),
                ..old(self).model()
            });
        }
        Ok(())
    }

    /// Preserves an ancillary chunk verbatim, in encounter order.
    pub fn found_misc_chunk(&mut self, chunk: Chunk)
        requires
            old(self).wf(),
            chunk.chunk_type is Other,
            chunk.data@.len() <= u32::MAX,
            spec_tag_bytes(chunk.chunk_type) != spec_ihdr_tag(),
            spec_tag_bytes(chunk.chunk_type) != spec_idat_tag(),
            spec_tag_bytes(chunk.chunk_type) != spec_iend_tag(),
        ensures
            final(self).wf(),
            final(self).terminator == old(self).terminator,
            spec_step(old(self).model(), spec_chunk_model(chunk)) == Ok::<ParserModel, PngError>(
                final(self).model(),
            ),
    {
        self.misc.push(chunk);
        proof {
            assert(final(self).model().misc =~= old(self).model().misc.push(
                spec_chunk_model(chunk),
            ));
            assert(final(self).model() =~= ParserModel {
                misc: old(self).model().misc.push(spec_chunk_model(chunk)),
                ..old(self).model()
            });
        }
    }

    /// Classifies one parsed chunk and folds it into the state.
    pub fn found_chunk(&mut self, chunk: Chunk) -> (r: Result<(), PngError>)
        requires
            old(self).wf(),
            chunk.data@.len() <= u32::MAX,
            chunk.chunk_type is Start <==> spec_tag_bytes(chunk.chunk_type) == spec_ihdr_tag(),
            chunk.chunk_type is Data <==> spec_tag_bytes(chunk.chunk_type) == spec_idat_tag(),
            chunk.chunk_type is End <==> spec_tag_bytes(chunk.chunk_type) == spec_iend_tag(),
        ensures
            final(self).wf(),
            r is Ok && !(chunk.chunk_type is End) ==> final(self).terminator == old(
                self,
            ).terminator,
            r is Ok && chunk.chunk_type is End ==> final(self).terminator is Some,
            match r {
                Ok(()) => spec_step(old(self).model(), spec_chunk_model(chunk)) == Ok::<
                    ParserModel,
                    PngError,
                >(final(self).model()),
                Err(e) => spec_step(old(self).model(), spec_chunk_model(chunk)) == Err::<
                    ParserModel,
                    PngError,
                >(e),
            },
    {
        match chunk.chunk_type {
            ChunkType::Start => self.found_ihdr(chunk),
            ChunkType::End => self.found_iend(chunk),
            ChunkType::Data => self.found_idat(chunk),
            ChunkType::Other(_) => {
                self.found_misc_chunk(chunk);
                Ok(())
            },
        }
    }

    /// Walks the chunk stream from the front of `buffer`, classifying each
    /// chunk in order and stopping at the first IEND.
    pub fn parse_chunks(&mut self, buffer: &[u8]) -> (r: Result<(), PngError>)
        requires
            old(self).wf(),
            old(self).terminator is None,
        ensures
            final(self).wf(),
            match r {
                Ok(()) => spec_parse_chunks(buffer@, old(self).model()) == Ok::<
                    ParserModel,
                    PngError,
                >(final(self).model()),
                Err(e) => spec_parse_chunks(buffer@, old(self).model()) == Err::<
                    ParserModel,
                    PngError,
                >(e),
            },
    {
        let blen = buffer.len();
        let mut index: usize = 0;
        let mut done = false;
        proof {
            assert(buffer@.skip(0) =~= buffer@);
        }
        while index < blen && !done
            invariant
                blen == buffer@.len(),
                index <= blen,
                self.wf(),
                !done ==> self.terminator is None,
                !done ==> spec_parse_chunks(buffer@, old(self).model()) == spec_parse_chunks(
                    buffer@.skip(index as int),
                    self.model(),
                ),
                done ==> spec_parse_chunks(buffer@, old(self).model()) == Ok::<
                    ParserModel,
                    PngError,
                >(self.model()),
            decreases blen - index,
        {
            let ghost rest = buffer@.skip(index as int);
            let tail = slice_subrange(buffer, index, blen);
            proof {
                assert(tail@ =~= rest);
            }
            let chunk = match Chunk::parse(tail) {
                Ok(c) => c,
                Err(e) => {
                    proof {
                        assert(rest.len() > 0);
                        assert(!spec_chunk_ok(rest));
                    }
                    return Err(e);
                },
            };
            let ghost c_model = ChunkModel {
                tag: spec_chunk_tag(rest),
                data: spec_chunk_data(rest),
                crc: spec_chunk_crc(rest),
            };
            proof {
                assert(spec_chunk_model(chunk) =~= c_model);
            }
            let consumed = chunk.consumed_size();
            let is_end = match chunk.chunk_type {
                ChunkType::End => true,
                _ => false,
            };
            match self.found_chunk(chunk) {
                Ok(()) => {},
                Err(e) => {
                    return Err(e);
                },
            }
            proof {
                assert(rest.skip(spec_chunk_len(rest) + 12) =~= buffer@.skip(
                    index + consumed as int,
                ));
            }
            index = index + consumed;
            if is_end {
                done = true;
            }
        }
        proof {
            if !done {
                assert(buffer@.skip(index as int) =~= Seq::<u8>::empty());
            }
        }
        Ok(())
    }

    /// Inflates the accumulated IDAT payload into the decoded buffer of
    /// exactly `scanline_width * height` bytes.
    pub fn deflate(&self) -> (r: Result<Vec<u8>, PngError>)
        requires
            self.wf(),
        ensures
            match r {
                Ok(d) => spec_deflate_step(self.model()) == Ok::<Seq<u8>, PngError>(d@) && match self
                    .model().header {
                    Some(h) => d@.len() == h.scanline_width * h.height,
                    Option::None => false,
                },
                Err(e) => spec_deflate_step(self.model()) == Err::<Seq<u8>, PngError>(e),
            },
    {
        if !self.has_idat() {
            return Err(PngError::NoIDATFound);
        }
        let header = match &self.header {
            Some(h) => h,
            Option::None => {
                return Err(PngError::NoIHDRFound);
            },
        };
        let sw = header.scan_line_width();
        let h = header.height() as usize;
        let n = match sw.checked_mul(h) {
            Some(n) => n,
            Option::None => {
                return Err(PngError::DeflateFailure);
            },
        };
        match inflate(&self.data, n) {
            Some(d) => Ok(d),
            Option::None => Err(PngError::DeflateFailure),
        }
    }

    /// Builds the image from the accumulated state.
    pub fn build(self) -> (r: Result<Png, PngError>)
        requires
            self.wf(),
        ensures
            match r {
                Ok(png) => png.wf() && spec_build(self.model()) == Ok::<PngModel, PngError>(
                    png.model(),
                ),
                Err(e) => spec_build(self.model()) == Err::<PngModel, PngError>(e),
            },
    {
        let decoded = match self.deflate() {
            Ok(d) => d,
            Err(e) => {
                return Err(e);
            },
        };
        let Parser { header, terminator, data: _, misc } = self;
        let header = match header {
            Some(h) => h,
            Option::None => {
                return Err(PngError::NoIHDRFound);
            },
        };
        let terminator = match terminator {
            Some(t) => t,
            Option::None => {
                return Err(PngError::NOIENDFound);
            },
        };
        let sw = header.scan_line_width();
        let h = header.height() as usize;
        let dlen = decoded.len();
        proof {
            let hm = spec_header_model(spec_chunk_model(header.inner));
            assert(hm.width == header.metadata.width);
            assert(hm.scanline_width == header.scanline_width);
            assert(hm.height == header.metadata.height);
            assert(dlen == sw * h);
        }
        let mut k: usize = 0;
        let mut offset: usize = 0;
        let mut bad = false;
        while k < h
            invariant_except_break
                sw == header.scanline_width,
                h == header.metadata.height,
                offset == k * sw,
                k <= h,
                !bad,
                dlen == decoded@.len(),
                decoded@.len() == sw * h,
                1 <= sw,
                forall|j: int| 0 <= j < k ==> #[trigger] decoded@[j * (sw as int)] <= 4,
            ensures
                decoded@.len() == sw * h,
                bad ==> !spec_tags_valid(decoded@, sw as int, h as int),
                !bad ==> spec_tags_valid(decoded@, sw as int, h as int),
            decreases h - k,
        {
            proof {
                assert(k * sw + sw <= h * sw) by (nonlinear_arith)
                    requires
                        0 <= k < h,
                        1 <= sw,
                ;
                assert((k + 1) * sw == k * sw + sw) by (nonlinear_arith);
                assert(h * sw == sw * h) by (nonlinear_arith);
                assert(offset + sw <= dlen);
                assert(offset < dlen);
            }
            if decoded[offset] > 4 {
                bad = true;
                proof {
                    assert(decoded@[(k as int) * (sw as int)] > 4);
                }
                break;
            }
            k = k + 1;
            offset = offset + sw;
        }
        if bad {
            return Err(PngError::InvalidFilterType);
        }
        let png = Png::new(header, terminator, misc, decoded);
        proof {
            assert(spec_build(self.model()) == Ok::<PngModel, PngError>(png.model()));
        }
        Ok(png)
    }

    /// Parses a whole PNG byte stream: checks the signature, walks the chunk
    /// stream, and builds the image.
    pub fn parse(buffer: &[u8]) -> (r: Result<Png, PngError>)
        ensures
            r is Ok <==> spec_parse(buffer@) is Ok,
            r matches Err(e) ==> spec_parse(buffer@) == Err::<PngModel, PngError>(e),
            r matches Ok(png) ==> png.wf() && Ok::<PngModel, PngError>(png.model()) == spec_parse(
                buffer@,
            ),
    {
        if buffer.len() < 8 {
            return Err(PngError::InvalidSignature);
        }
        let s0 = buffer[0];
        let s1 = buffer[1];
        let s2 = buffer[2];
        let s3 = buffer[3];
        let s4 = buffer[4];
        let s5 = buffer[5];
        let s6 = buffer[6];
        let s7 = buffer[7];
        proof {
            assert(buffer@.subrange(0, 8) =~= seq![s0, s1, s2, s3, s4, s5, s6, s7]);
        }
        if !(s0 == 0x89 && s1 == 0x50 && s2 == 0x4E && s3 == 0x47 && s4 == 0x0D && s5 == 0x0A && s6
            == 0x1A && s7 == 0x0A) {
            proof {
                assert(buffer@.subrange(0, 8) != spec_signature());
            }
            return Err(PngError::InvalidSignature);
        }
        proof {
            assert(buffer@.subrange(0, 8) =~= spec_signature());
        }
        let mut parser = Self::new();
        let tail = slice_subrange(buffer, 8, buffer.len());
        proof {
            assert(tail@ =~= buffer@.skip(8));
        }
        match parser.parse_chunks(tail) {
            Ok(()) => {},
            Err(e) => {
                return Err(e);
            },
        }
        parser.build()
    }
}

} // verus!
