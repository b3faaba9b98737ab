//! A verified PNG container codec and scanline-filter mutation engine, for
//! making glitched PNG images.
//!
//! The crate parses a PNG byte stream into its structural chunks, inflates
//! the pixel stream into one contiguous decoded buffer, exposes that buffer
//! as a sequence of filter-tagged scanlines, applies and removes the five
//! PNG scanline filters in place, relocates scanline spans, and
//! re-serializes the whole image into a valid PNG byte stream.

pub mod chunk;
pub mod codec;
pub mod error;
pub mod filter;
pub mod filter_type;
pub mod header;
pub mod laws;
pub mod parser;
pub mod png;
pub mod scan_line;

pub use error::PngError;
pub use filter_type::FilterType;
pub use header::ColorType;
pub use png::Png;
pub use scan_line::{MemoryRange, ScanLine};

use vstd::prelude::*;
use crate::filter_type::spec_filter_of_code;
use crate::parser::{PngModel, spec_parse};
use crate::png::{
    spec_applied_from, spec_line_at, spec_png_bytes, spec_removed_from, spec_scanline_modified,
    spec_transposed,
};
use crate::codec::{spec_deflate, spec_inflate};

verus! {

/// A glitchable PNG image: the parsed aggregate together with the whole
/// public operation surface.
pub struct PngGlitch {
    /// The parsed image.
    pub png: Png,
}

impl PngGlitch {
    /// Parses PNG image data held in a byte buffer.
    pub fn new(buffer: Vec<u8>) -> (r: Result<PngGlitch, PngError>)
        ensures
            r is Ok <==> spec_parse(buffer@) is Ok,
            r matches Err(e) ==> spec_parse(buffer@) == Err::<PngModel, PngError>(e),
            r matches Ok(g) ==> g.png.wf() && Ok::<PngModel, PngError>(g.png.model())
                == spec_parse(buffer@),
    {
        let png = Png::parse(buffer.as_slice())?;
        Ok(PngGlitch { png })
    }

    /// Views of every scanline of the image; always exactly as many as the
    /// image is high.
    pub fn scan_lines(&self) -> (r: Vec<ScanLine>)
        requires
            self.png.wf(),
        ensures
            r@.len() == self.png.spec_height(),
            forall|j: int|
                0 <= j < r@.len() ==> r@[j] == spec_line_at(
                    self.png.spec_scanline_width(),
                    self.png.header.metadata.color_type,
                    self.png.header.metadata.bit_depth,
                    spec_filter_of_code(self.png.data@[j * self.png.spec_scanline_width()]),
                    j,
                ),
    {
        self.png.scan_lines()
    }

    /// Views of at most `lines` scanlines starting at scanline `from`,
    /// clamped to the image's height.
    pub fn scan_lines_from(&self, from: u32, lines: u32) -> (r: Vec<ScanLine>)
        requires
            self.png.wf(),
        ensures
            r@.len() == if from as int <= self.png.spec_height() {
                if from + lines <= self.png.spec_height() {
                    lines as int
                } else {
                    self.png.spec_height() - from
                }
            } else {
                0
            },
            forall|j: int|
                0 <= j < r@.len() ==> r@[j] == spec_line_at(
                    self.png.spec_scanline_width(),
                    self.png.header.metadata.color_type,
                    self.png.header.metadata.bit_depth,
                    spec_filter_of_code(
                        self.png.data@[(from + j) * self.png.spec_scanline_width()],
                    ),
                    from + j,
                ),
    {
        self.png.scan_lines_from(from as usize, lines as usize)
    }

    /// Calls `modifier` once per scanline, top to bottom, handing it the
    /// scanline's view and a copy of its pixel bytes; the returned filter
    /// type is written to the tag byte and the returned bytes replace the
    /// pixel bytes, as many as the scanline holds.
    pub fn foreach_scanline<F: Fn(ScanLine, Vec<u8>) -> (FilterType, Vec<u8>)>(
        &mut self,
        modifier: F,
    )
        requires
            old(self).png.wf(),
            forall|line: ScanLine, bytes: Vec<u8>|
                #[trigger] call_requires(modifier, (line, bytes)),
        ensures
            final(self).png.wf(),
            final(self).png.header == old(self).png.header,
            final(self).png.terminator == old(self).png.terminator,
            final(self).png.misc_chunks == old(self).png.misc_chunks,
            final(self).png.data@.len() == old(self).png.data@.len(),
            forall|k: int|
                0 <= k < old(self).png.spec_height() ==> spec_scanline_modified(
                    old(self).png.data@,
                    final(self).png.data@,
                    old(self).png.spec_scanline_width(),
                    old(self).png.header.metadata.color_type,
                    old(self).png.header.metadata.bit_depth,
                    k,
                    modifier,
                ),
    {
        self.png.foreach_scanline(modifier)
    }

    /// Serializes the image as PNG data appended to `buffer`; fails,
    /// appending nothing, only when the decoded buffer is too long for the
    /// compressor or the compressed stream is too long for a chunk's length
    /// field.
    pub fn encode(&self, buffer: &mut Vec<u8>) -> (r: Result<(), PngError>)
        requires
            self.png.wf(),
        ensures
            r is Ok <==> (self.png.data@.len() <= u32::MAX && spec_deflate(self.png.data@).len()
                <= u32::MAX),
            r is Err ==> r == Err::<(), PngError>(PngError::DeflateFailure) && final(buffer)@
                == old(buffer)@,
            r is Ok ==> final(buffer)@ == old(buffer)@ + spec_png_bytes(self.png.model()),
            r is Ok ==> spec_inflate(spec_deflate(self.png.data@), self.png.data@.len()) == Some(
                self.png.data@,
            ) && spec_deflate(self.png.data@).len() > 0,
    {
        self.png.encode(buffer)?;
        Ok(())
    }

    /// The width of the image in pixels.
    pub fn width(&self) -> (r: u32)
        ensures
            r == self.png.header.metadata.width,
    {
        self.png.width()
    }

    /// The height of the image in scanlines.
    pub fn height(&self) -> (r: u32)
        ensures
            r == self.png.header.metadata.height,
    {
        self.png.height()
    }

    /// Swaps the spans of `lines` scanlines starting at scanlines `src` and
    /// `dst`; where they overlap, the bytes moved into the destination span
    /// win.
    pub fn transpose(&mut self, src: u32, dst: u32, lines: u32)
        requires
            old(self).png.wf(),
            src + lines <= old(self).png.spec_height(),
            dst + lines <= old(self).png.spec_height(),
        ensures
            final(self).png.wf(),
            final(self).png.header == old(self).png.header,
            final(self).png.terminator == old(self).png.terminator,
            final(self).png.misc_chunks == old(self).png.misc_chunks,
            spec_transposed(
                old(self).png.data@,
                final(self).png.data@,
                src * old(self).png.spec_scanline_width(),
                dst * old(self).png.spec_scanline_width(),
                lines * old(self).png.spec_scanline_width(),
            ),
    {
        self.png.transpose(src as usize, dst as usize, lines)
    }

    /// Removes the filters from every scanline, leaving every tag byte 0.
    pub fn remove_filter(&mut self)
        requires
            old(self).png.wf(),
        ensures
            final(self).png.wf(),
            final(self).png.header == old(self).png.header,
            final(self).png.terminator == old(self).png.terminator,
            final(self).png.misc_chunks == old(self).png.misc_chunks,
            spec_removed_from(
                old(self).png.data@,
                final(self).png.data@,
                old(self).png.spec_scanline_width(),
                old(self).png.header.metadata.color_type,
                old(self).png.header.metadata.bit_depth,
                0,
                old(self).png.spec_height(),
            ),
    {
        self.png.remove_filter();
    }

    /// Removes the filters from scanlines `[from, from + lines)`, clamped
    /// to the image's height.
    pub fn remove_filter_from(&mut self, from: u32, lines: u32)
        requires
            old(self).png.wf(),
        ensures
            final(self).png.wf(),
            final(self).png.header == old(self).png.header,
            final(self).png.terminator == old(self).png.terminator,
            final(self).png.misc_chunks == old(self).png.misc_chunks,
            ({
                let h = old(self).png.spec_height();
                let s = if from as int <= h {
                    from as int
                } else {
                    h
                };
                let e = if from + lines <= h {
                    from + lines
                } else {
                    h
                };
                spec_removed_from(
                    old(self).png.data@,
                    final(self).png.data@,
                    old(self).png.spec_scanline_width(),
                    old(self).png.header.metadata.color_type,
                    old(self).png.header.metadata.bit_depth,
                    s,
                    e,
                )
            }),
    {
        self.png.remove_filter_from(from, lines);
    }

    /// Applies `filter` to every scanline.
    pub fn apply_filter(&mut self, filter: FilterType)
        requires
            old(self).png.wf(),
        ensures
            final(self).png.wf(),
            final(self).png.header == old(self).png.header,
            final(self).png.terminator == old(self).png.terminator,
            final(self).png.misc_chunks == old(self).png.misc_chunks,
            spec_applied_from(
                old(self).png.data@,
                final(self).png.data@,
                old(self).png.spec_scanline_width(),
                old(self).png.header.metadata.color_type,
                old(self).png.header.metadata.bit_depth,
                filter,
                0,
                old(self).png.spec_height(),
            ),
    {
        self.png.apply_filter(filter);
    }

    /// Applies `filter_type` to scanlines `[from, from + lines)`, clamped
    /// to the image's height.
    pub fn apply_filter_from(&mut self, filter_type: FilterType, from: u32, lines: u32)
        requires
            old(self).png.wf(),
        ensures
            final(self).png.wf(),
            final(self).png.header == old(self).png.header,
            final(self).png.terminator == old(self).png.terminator,
            final(self).png.misc_chunks == old(self).png.misc_chunks,
            ({
                let h = old(self).png.spec_height();
                let s = if from as int <= h {
                    from as int
                } else {
                    h
                };
                let e = if from + lines <= h {
                    from + lines
                } else {
                    h
                };
                spec_applied_from(
                    old(self).png.data@,
                    final(self).png.data@,
                    old(self).png.spec_scanline_width(),
                    old(self).png.header.metadata.color_type,
                    old(self).png.header.metadata.bit_depth,
                    filter_type,
                    s,
                    e,
                )
            }),
    {
        self.png.apply_filter_from(filter_type, from, lines);
    }
}

} // verus!
