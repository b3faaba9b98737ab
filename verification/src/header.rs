//! The IHDR chunk: image dimensions, bit depth, color type, and the derived
//! scanline geometry.

use vstd::prelude::*;
use crate::chunk::{Chunk, spec_be32};
use crate::error::PngError;

verus! {

/// The color type of a PNG image, as stored in byte 9 of the IHDR payload.
#[derive(Clone, Copy, Debug)]
pub enum ColorType {
    /// Grayscale image (code 0).
    GrayScale,
    /// Truecolor image (code 2).
    TrueColor,
    /// Indexed-color image (code 3).
    IndexColor,
    /// Grayscale image with alpha (code 4).
    GrayScaleAlpha,
    /// Truecolor image with alpha (code 6).
    TrueColorAlpha,
}

/// The IHDR code of a color type.
pub open spec fn spec_color_code(ct: ColorType) -> u8 {
    match ct {
        ColorType::GrayScale => 0,
        ColorType::TrueColor => 2,
        ColorType::IndexColor => 3,
        ColorType::GrayScaleAlpha => 4,
        ColorType::TrueColorAlpha => 6,
    }
}

/// Whether a byte is one of the five known color-type codes.
pub open spec fn spec_color_code_valid(value: u8) -> bool {
    value == 0 || value == 2 || value == 3 || value == 4 || value == 6
}

/// The color type of a known code.
pub open spec fn spec_color_of_code(value: u8) -> ColorType {
    if value == 0 {
        ColorType::GrayScale
    } else if value == 2 {
        ColorType::TrueColor
    } else if value == 3 {
        ColorType::IndexColor
    } else if value == 4 {
        ColorType::GrayScaleAlpha
    } else {
        ColorType::TrueColorAlpha
    }
}

/// Bits per pixel: the bit depth times the number of channels.
pub open spec fn spec_bit_per_pixel(ct: ColorType, bit_depth: u8) -> int {
    match ct {
        ColorType::GrayScale => bit_depth as int,
        ColorType::TrueColor => 3 * bit_depth,
        ColorType::IndexColor => bit_depth as int,
        ColorType::GrayScaleAlpha => 2 * bit_depth,
        ColorType::TrueColorAlpha => 4 * bit_depth,
    }
}

impl ColorType {
    /// The number of bits each pixel occupies at the given bit depth.
    pub fn bit_per_pixel(&self, bit_depth: u8) -> (r: usize)
        ensures
            r == spec_bit_per_pixel(*self, bit_depth),
            r <= 1020,
    {
        match self {
            ColorType::GrayScale => bit_depth as usize,
            ColorType::TrueColor => (bit_depth as usize) * 3,
            ColorType::IndexColor => bit_depth as usize,
            ColorType::GrayScaleAlpha => (bit_depth as usize) * 2,
            ColorType::TrueColorAlpha => (bit_depth as usize) * 4,
        }
    }

    /// Decodes an IHDR color-type byte.
    pub fn from_u8(value: u8) -> (r: Result<ColorType, PngError>)
        ensures
            r is Ok <==> spec_color_code_valid(value),
            r is Err ==> r == Err::<ColorType, PngError>(PngError::InvalidColorType),
            spec_color_code_valid(value) ==> r == Ok::<ColorType, PngError>(
                spec_color_of_code(value),
            ),
    {
        match value {
            0 => Ok(ColorType::GrayScale),
            2 => Ok(ColorType::TrueColor),
            3 => Ok(ColorType::IndexColor),
            4 => Ok(ColorType::GrayScaleAlpha),
            6 => Ok(ColorType::TrueColorAlpha),
            _ => Err(PngError::InvalidColorType),
        }
    }
}

/// The pixel-geometry fields parsed out of the IHDR payload.
#[derive(Clone, Copy, Debug)]
pub struct MetaData {
    /// The width of the image in pixels.
    pub width: u32,
    /// The height of the image in scanlines.
    pub height: u32,
    /// The color type of the image.
    pub color_type: ColorType,
    /// The bit depth of each channel.
    pub bit_depth: u8,
}

impl MetaData {
    /// Builds the metadata record.
    pub fn new(width: u32, height: u32, color_type: ColorType, bit_depth: u8) -> (r: MetaData)
        ensures
            r == (MetaData { width, height, color_type, bit_depth }),
    {
        MetaData { width, height, color_type, bit_depth }
    }

    /// The number of pixel-data bits in one scanline.
    pub fn bits_per_scanline(&self) -> (r: usize)
        requires
            spec_bit_per_pixel(self.color_type, self.bit_depth) * self.width <= usize::MAX,
        ensures
            r == spec_bit_per_pixel(self.color_type, self.bit_depth) * self.width,
    {
        let bpp = self.color_type.bit_per_pixel(self.bit_depth);
        bpp * (self.width as usize)
    }
}

/// Bytes per scanline: the pixel bits rounded up to whole bytes, plus the
/// leading filter-tag byte.
pub open spec fn spec_scan_line_width(ct: ColorType, bit_depth: u8, width: u32) -> int {
    (spec_bit_per_pixel(ct, bit_depth) * width + 7) / 8 + 1
}

/// The IHDR chunk of a PNG stream, with its parsed metadata.
pub struct Header {
    /// The raw IHDR chunk, preserved verbatim for re-encoding.
    pub inner: Chunk,
    /// The metadata parsed from the payload.
    pub metadata: MetaData,
    /// The derived count of bytes per scanline, filter tag included.
    pub scanline_width: usize,
}

impl Header {
    /// The derived fields agree with the preserved IHDR payload bytes.
    pub open spec fn wf(self) -> bool {
        &&& self.inner.chunk_type is Start
        &&& 13 <= self.inner.data@.len() <= u32::MAX
        &&& spec_be32(self.inner.data@.subrange(0, 4)) == self.metadata.width
        &&& spec_be32(self.inner.data@.subrange(4, 8)) == self.metadata.height
        &&& self.inner.data@[8] == self.metadata.bit_depth
        &&& spec_color_code_valid(self.inner.data@[9])
        &&& spec_color_of_code(self.inner.data@[9]) == self.metadata.color_type
        &&& self.scanline_width == spec_scan_line_width(
            self.metadata.color_type,
            self.metadata.bit_depth,
            self.metadata.width,
        )
    }

    /// Builds a header from parsed fields and the raw IHDR chunk.
    pub fn new(width: u32, height: u32, bit_depth: u8, color_type: ColorType, inner: Chunk) -> (r:
        Header)
        requires
            spec_scan_line_width(color_type, bit_depth, width) <= usize::MAX,
        ensures
            r.inner == inner,
            r.metadata == (MetaData { width, height, color_type, bit_depth }),
            r.scanline_width == spec_scan_line_width(color_type, bit_depth, width),
    {
        let metadata = MetaData::new(width, height, color_type, bit_depth);
        let bpp = color_type.bit_per_pixel(bit_depth);
        proof {
            assert(bpp * width <= 1020 * 0xffffffffu64) by (nonlinear_arith)
                requires
                    0 <= bpp <= 1020,
                    0 <= width <= 0xffffffffu64,
            ;
        }
        let bits: u64 = (bpp as u64) * (width as u64);
        let scanline_width = (((bits + 7) / 8 + 1) as usize);
        Header { inner, metadata, scanline_width }
    }

    /// The width of the image in pixels.
    pub fn width(&self) -> (r: u32)
        ensures
            r == self.metadata.width,
    {
        self.metadata.width
    }

    /// The height of the image in scanlines.
    pub fn height(&self) -> (r: u32)
        ensures
            r == self.metadata.height,
    {
        self.metadata.height
    }

    /// The number of bytes in one scanline, filter tag included.
    pub fn scan_line_width(&self) -> (r: usize)
        ensures
            r == self.scanline_width,
    {
        self.scanline_width
    }

    /// The color type of the image.
    pub fn color_type(&self) -> (r: ColorType)
        ensures
            r == self.metadata.color_type,
    {
        self.metadata.color_type
    }

    /// The bit depth of each channel.
    pub fn bit_depth(&self) -> (r: u8)
        ensures
            r == self.metadata.bit_depth,
    {
        self.metadata.bit_depth
    }

    /// Reads the big-endian width from bytes 0-3 of the IHDR payload.
    pub fn parse_width(chunk: &Chunk) -> (r: u32)
        requires
            chunk.data@.len() >= 13,
        ensures
            r == spec_be32(chunk.data@.subrange(0, 4)),
    {
        let d = &chunk.data;
        let r: u32 = (d[0] as u32) * 0x1000000 + (d[1] as u32) * 0x10000 + (d[2] as u32) * 0x100 + (
        d[3] as u32);
        proof {
            assert(chunk.data@.subrange(0, 4) =~= seq![d@[0], d@[1], d@[2], d@[3]]);
        }
        r
    }

    /// Reads the big-endian height from bytes 4-7 of the IHDR payload.
    pub fn parse_height(chunk: &Chunk) -> (r: u32)
        requires
            chunk.data@.len() >= 13,
        ensures
            r == spec_be32(chunk.data@.subrange(4, 8)),
    {
        let d = &chunk.data;
        let r: u32 = (d[4] as u32) * 0x1000000 + (d[5] as u32) * 0x10000 + (d[6] as u32) * 0x100 + (
        d[7] as u32);
        proof {
            assert(chunk.data@.subrange(4, 8) =~= seq![d@[4], d@[5], d@[6], d@[7]]);
        }
        r
    }

    /// Reads the bit depth from byte 8 of the IHDR payload.
    pub fn parse_bit_depth(chunk: &Chunk) -> (r: u8)
        requires
            chunk.data@.len() >= 13,
        ensures
            r == chunk.data@[8],
    {
        chunk.data[8]
    }

    /// Decodes the color type from byte 9 of the IHDR payload.
    pub fn parse_color_type(chunk: &Chunk) -> (r: Result<ColorType, PngError>)
        requires
            chunk.data@.len() >= 13,
        ensures
            r is Ok <==> spec_color_code_valid(chunk.data@[9]),
            r is Err ==> r == Err::<ColorType, PngError>(PngError::InvalidColorType),
            r matches Ok(ct) ==> ct == spec_color_of_code(chunk.data@[9]),
    {
        ColorType::from_u8(chunk.data[9])
    }

    /// Parses the 13 fixed-offset bytes of an IHDR chunk's payload into a
    /// header; the raw chunk is preserved for re-encoding.
    pub fn from_chunk(chunk: Chunk) -> (r: Result<Header, PngError>)
        requires
            chunk.chunk_type is Start,
            chunk.data@.len() <= u32::MAX,
        ensures
            r is Ok <==> (chunk.data@.len() >= 13 && spec_color_code_valid(chunk.data@[9])
                && spec_scan_line_width(
                spec_color_of_code(chunk.data@[9]),
                chunk.data@[8],
                spec_be32(chunk.data@.subrange(0, 4)) as u32,
            ) <= usize::MAX),
            chunk.data@.len() < 13 ==> r == Err::<Header, PngError>(PngError::TooShortInput),
            (chunk.data@.len() >= 13 && !spec_color_code_valid(chunk.data@[9])) ==> r == Err::<
                Header,
                PngError,
            >(PngError::InvalidColorType),
            (chunk.data@.len() >= 13 && spec_color_code_valid(chunk.data@[9])
                && !(spec_scan_line_width(
                spec_color_of_code(chunk.data@[9]),
                chunk.data@[8],
                spec_be32(chunk.data@.subrange(0, 4)) as u32,
            ) <= usize::MAX)) ==> r == Err::<Header, PngError>(PngError::DeflateFailure),
            r matches Ok(h) ==> {
                &&& h.wf()
                &&& h.inner == chunk
                &&& h.metadata.width == spec_be32(chunk.data@.subrange(0, 4))
                &&& h.metadata.height == spec_be32(chunk.data@.subrange(4, 8))
                &&& h.metadata.bit_depth == chunk.data@[8]
                &&& h.metadata.color_type == spec_color_of_code(chunk.data@[9])
            },
    {
        if chunk.data.len() < 13 {
            return Err(PngError::TooShortInput);
        }
        let width = Header::parse_width(&chunk);
        let height = Header::parse_height(&chunk);
        let bit_depth = Header::parse_bit_depth(&chunk);
        let color_type = Header::parse_color_type(&chunk)?;
        let bpp = color_type.bit_per_pixel(bit_depth);
        proof {
            assert(bpp * width <= 1020 * 0xffffffffu64) by (nonlinear_arith)
                requires
                    0 <= bpp <= 1020,
                    0 <= width <= 0xffffffffu64,
            ;
        }
        let bits: u64 = (bpp as u64) * (width as u64);
        if (bits + 7) / 8 + 1 > usize::MAX as u64 {
            // A scanline this wide cannot be held in one allocation here.
            return Err(PngError::DeflateFailure);
        }
        Ok(Header::new(width, height, bit_depth, color_type, chunk))
    }

    /// Appends the serialized IHDR chunk record to `buffer`.
    pub fn encode(&self, buffer: &mut Vec<u8>)
        requires
            self.inner.data@.len() <= u32::MAX,
        ensures
            final(buffer)@ == old(buffer)@ + crate::chunk::spec_chunk_bytes(
                crate::chunk::spec_tag_bytes(self.inner.chunk_type),
                self.inner.data@,
                self.inner.crc@,
            ),
    {
        self.inner.encode(buffer)
    }
}

} // verus!
