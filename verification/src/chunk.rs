//! PNG chunks: the length/type/payload/CRC records of the container format.

use vstd::prelude::*;
use vstd::slice::slice_subrange;
use crate::error::PngError;

verus! {

/// The classification of a chunk by its 4-byte type tag.
#[derive(Clone, Copy, Debug)]
pub enum ChunkType {
    /// The IHDR chunk.
    Start,
    /// The IDAT chunk.
    Data,
    /// The IEND chunk.
    End,
    /// Any other chunk, preserved verbatim with its tag.
    Other([u8; 4]),
}

/// The IHDR tag bytes.
pub open spec fn spec_ihdr_tag() -> Seq<u8> {
    seq![73u8, 72u8, 68u8, 82u8]
}

/// The IDAT tag bytes.
pub open spec fn spec_idat_tag() -> Seq<u8> {
    seq![73u8, 68u8, 65u8, 84u8]
}

/// The IEND tag bytes.
pub open spec fn spec_iend_tag() -> Seq<u8> {
    seq![73u8, 69u8, 78u8, 68u8]
}

/// The 4 tag bytes that a chunk type re-encodes to.
pub open spec fn spec_tag_bytes(ct: ChunkType) -> Seq<u8> {
    match ct {
        ChunkType::Start => spec_ihdr_tag(),
        ChunkType::Data => spec_idat_tag(),
        ChunkType::End => spec_iend_tag(),
        ChunkType::Other(tag) => tag@,
    }
}

impl ChunkType {
    /// The IHDR tag.
    pub const IHDR: [u8; 4] = [73, 72, 68, 82];

    /// The IDAT tag.
    pub const IDAT: [u8; 4] = [73, 68, 65, 84];

    /// The IEND tag.
    pub const IEND: [u8; 4] = [73, 69, 78, 68];

    /// Classifies the first 4 bytes of `bytes` as a chunk type.
    pub fn new(bytes: &[u8]) -> (r: Result<ChunkType, PngError>)
        ensures
            r is Ok <==> bytes@.len() >= 4,
            r is Err ==> r == Err::<ChunkType, PngError>(PngError::TooShortInput),
            bytes@.len() >= 4 ==> {
                let tag = bytes@.subrange(0, 4);
                let ct = r->Ok_0;
                &&& spec_tag_bytes(ct) == tag
                &&& (ct is Start <==> tag == spec_ihdr_tag())
                &&& (ct is Data <==> tag == spec_idat_tag())
                &&& (ct is End <==> tag == spec_iend_tag())
            },
    {
        if bytes.len() < 4 {
            return Err(PngError::TooShortInput);
        }
        let b0 = bytes[0];
        let b1 = bytes[1];
        let b2 = bytes[2];
        let b3 = bytes[3];
        proof {
            assert(bytes@.subrange(0, 4) =~= seq![b0, b1, b2, b3]);
        }
        let t = if b0 == 73 && b1 == 72 && b2 == 68 && b3 == 82 {
            ChunkType::Start
        } else if b0 == 73 && b1 == 68 && b2 == 65 && b3 == 84 {
            ChunkType::Data
        } else if b0 == 73 && b1 == 69 && b2 == 78 && b3 == 68 {
            ChunkType::End
        } else {
            ChunkType::Other([b0, b1, b2, b3])
        };
        proof {
            assert(spec_tag_bytes(t) =~= seq![b0, b1, b2, b3]);
        }
        Ok(t)
    }

    /// Appends the 4 tag bytes to `buffer`.
    pub fn encode(&self, buffer: &mut Vec<u8>)
        ensures
            final(buffer)@ == old(buffer)@ + spec_tag_bytes(*self),
    {
        let tag: [u8; 4] = match self {
            ChunkType::Start => [73, 72, 68, 82],
            ChunkType::Data => [73, 68, 65, 84],
            ChunkType::End => [73, 69, 78, 68],
            ChunkType::Other(t) => *t,
        };
        buffer.push(tag[0]);
        buffer.push(tag[1]);
        buffer.push(tag[2]);
        buffer.push(tag[3]);
        proof {
            assert(buffer@ =~= old(buffer)@ + spec_tag_bytes(*self));
        }
    }
}

/// The big-endian 32-bit value stored in a 4-byte sequence.
pub open spec fn spec_be32(s: Seq<u8>) -> int {
    s[0] * 0x1000000 + s[1] * 0x10000 + s[2] * 0x100 + s[3]
}

/// The 4 big-endian bytes of a 32-bit value.
pub open spec fn spec_be32_bytes(n: int) -> Seq<u8> {
    seq![
        (n / 0x1000000) as u8,
        ((n / 0x10000) % 256) as u8,
        ((n / 0x100) % 256) as u8,
        (n % 256) as u8,
    ]
}

/// Reading back the big-endian bytes of a 32-bit value gives the value.
pub proof fn lemma_be32_roundtrip(n: int)
    requires
        0 <= n < 0x100000000,
    ensures
        spec_be32(spec_be32_bytes(n)) == n,
{
    let b = spec_be32_bytes(n);
    assert(b[0] == n / 0x1000000 && b[1] == (n / 0x10000) % 256 && b[2] == (n / 0x100) % 256
        && b[3] == n % 256);
    assert((n / 0x1000000) * 0x1000000 + ((n / 0x10000) % 256) * 0x10000 + ((n / 0x100) % 256)
        * 0x100 + n % 256 == n) by (nonlinear_arith)
        requires
            0 <= n < 0x100000000,
    ;
}

/// A chunk serialized: big-endian payload length, 4-byte tag, payload, CRC.
pub open spec fn spec_chunk_bytes(tag: Seq<u8>, data: Seq<u8>, crc: Seq<u8>) -> Seq<u8> {
    spec_be32_bytes(data.len() as int) + tag + data + crc
}

/// Whether `s` starts with a complete chunk record.
pub open spec fn spec_chunk_ok(s: Seq<u8>) -> bool {
    &&& s.len() >= 8
    &&& s.len() >= spec_be32(s.subrange(0, 4)) + 12
}

/// The payload length of the chunk record at the head of `s`.
pub open spec fn spec_chunk_len(s: Seq<u8>) -> int {
    spec_be32(s.subrange(0, 4))
}

/// The tag of the chunk record at the head of `s`.
pub open spec fn spec_chunk_tag(s: Seq<u8>) -> Seq<u8> {
    s.subrange(4, 8)
}

/// The payload of the chunk record at the head of `s`.
pub open spec fn spec_chunk_data(s: Seq<u8>) -> Seq<u8> {
    s.subrange(8, 8 + spec_chunk_len(s))
}

/// The CRC of the chunk record at the head of `s`.
pub open spec fn spec_chunk_crc(s: Seq<u8>) -> Seq<u8> {
    s.subrange(8 + spec_chunk_len(s), 12 + spec_chunk_len(s))
}

/// A chunk of a PNG stream: a type tag, a payload, and its CRC.
#[derive(Debug)]
pub struct Chunk {
    /// The classification of the chunk's type tag.
    pub chunk_type: ChunkType,
    /// The payload bytes.
    pub data: Vec<u8>,
    /// The 4 CRC bytes, opaque on read.
    pub crc: [u8; 4],
}

impl Chunk {
    /// The payload length.
    pub fn length(&self) -> (r: usize)
        ensures
            r == self.data@.len(),
    {
        self.data.len()
    }

    /// The total number of stream bytes the chunk record occupies.
    pub fn consumed_size(&self) -> (r: usize)
        requires
            self.data@.len() + 12 <= usize::MAX,
        ensures
            r == self.data@.len() + 12,
    {
        self.length() + 12
    }

    /// Builds a chunk from its parts.
    pub fn new(chunk_type: ChunkType, data: Vec<u8>, crc: [u8; 4]) -> (r: Chunk)
        ensures
            r.chunk_type == chunk_type,
            r.data == data,
            r.crc == crc,
    {
        Chunk { chunk_type, data, crc }
    }

    /// Parses the chunk record at the head of `buffer`.
    pub fn parse(buffer: &[u8]) -> (r: Result<Chunk, PngError>)
        ensures
            r is Ok <==> spec_chunk_ok(buffer@),
            r is Err ==> r == Err::<Chunk, PngError>(PngError::TooShortInput),
            r matches Ok(c) ==> {
                &&& spec_tag_bytes(c.chunk_type) == spec_chunk_tag(buffer@)
                &&& (c.chunk_type is Start <==> spec_chunk_tag(buffer@) == spec_ihdr_tag())
                &&& (c.chunk_type is Data <==> spec_chunk_tag(buffer@) == spec_idat_tag())
                &&& (c.chunk_type is End <==> spec_chunk_tag(buffer@) == spec_iend_tag())
                &&& c.data@ == spec_chunk_data(buffer@)
                &&& c.data@.len() == spec_chunk_len(buffer@)
                &&& c.crc@ == spec_chunk_crc(buffer@)
            },
    {
        let length = Self::parse_length(buffer)?;
        let chunk_type = Self::parse_chunk_type(slice_subrange(buffer, 4, buffer.len()))?;
        if buffer.len() < 8 || buffer.len() - 8 < length {
            return Err(PngError::TooShortInput);
        }
        let data = Self::parse_data(slice_subrange(buffer, 8, buffer.len()), length)?;
        if buffer.len() - 8 - length < 4 {
            return Err(PngError::TooShortInput);
        }
        let crc = Self::parse_crc(slice_subrange(buffer, length + 8, buffer.len()))?;
        proof {
            assert(buffer@.subrange(4, buffer@.len() as int).subrange(0, 4) =~= buffer@.subrange(
                4,
                8,
            ));
            assert(buffer@.subrange(8, buffer@.len() as int).subrange(0, length as int)
                =~= buffer@.subrange(8, 8 + length));
            assert(buffer@.subrange(length + 8, buffer@.len() as int).subrange(0, 4)
                =~= buffer@.subrange(8 + length, 12 + length));
        }
        Ok(Chunk::new(chunk_type, data, crc))
    }

    /// Reads the big-endian payload length at the head of `buffer`.
    pub fn parse_length(buffer: &[u8]) -> (r: Result<usize, PngError>)
        ensures
            r is Ok <==> buffer@.len() >= 4,
            r is Err ==> r == Err::<usize, PngError>(PngError::TooShortInput),
            r matches Ok(n) ==> n == spec_be32(buffer@.subrange(0, 4)),
    {
        if buffer.len() < 4 {
            return Err(PngError::TooShortInput);
        }
        let n: u32 = (buffer[0] as u32) * 0x1000000 + (buffer[1] as u32) * 0x10000 + (
        buffer[2] as u32) * 0x100 + (buffer[3] as u32);
        proof {
            assert(buffer@.subrange(0, 4) =~= seq![buffer@[0], buffer@[1], buffer@[2], buffer@[3]]);
        }
        Ok(n as usize)
    }

    /// Classifies the tag at the head of `buffer`.
    pub fn parse_chunk_type(buffer: &[u8]) -> (r: Result<ChunkType, PngError>)
        ensures
            r is Ok <==> buffer@.len() >= 4,
            r is Err ==> r == Err::<ChunkType, PngError>(PngError::TooShortInput),
            buffer@.len() >= 4 ==> {
                let tag = buffer@.subrange(0, 4);
                let ct = r->Ok_0;
                &&& spec_tag_bytes(ct) == tag
                &&& (ct is Start <==> tag == spec_ihdr_tag())
                &&& (ct is Data <==> tag == spec_idat_tag())
                &&& (ct is End <==> tag == spec_iend_tag())
            },
    {
        ChunkType::new(buffer)
    }

    /// Copies the first `length` bytes of `buffer` as a payload.
    pub fn parse_data(buffer: &[u8], length: usize) -> (r: Result<Vec<u8>, PngError>)
        ensures
            r is Ok <==> buffer@.len() >= length,
            r is Err ==> r == Err::<Vec<u8>, PngError>(PngError::TooShortInput),
            r matches Ok(d) ==> d@ == buffer@.subrange(0, length as int),
    {
        if buffer.len() < length {
            return Err(PngError::TooShortInput);
        }
        let mut data: Vec<u8> = Vec::new();
        let mut i: usize = 0;
        while i < length
            invariant
                i <= length,
                length <= buffer@.len(),
                data@ == buffer@.subrange(0, i as int),
            decreases length - i,
        {
            data.push(buffer[i]);
            i = i + 1;
            proof {
                assert(data@ =~= buffer@.subrange(0, i as int));
            }
        }
        Ok(data)
    }

    /// Reads the 4 CRC bytes at the head of `buffer`.
    pub fn parse_crc(buffer: &[u8]) -> (r: Result<[u8; 4], PngError>)
        ensures
            r is Ok <==> buffer@.len() >= 4,
            r is Err ==> r == Err::<[u8; 4], PngError>(PngError::TooShortInput),
            r matches Ok(crc) ==> crc@ == buffer@.subrange(0, 4),
    {
        if buffer.len() < 4 {
            return Err(PngError::TooShortInput);
        }
        let crc: [u8; 4] = [buffer[0], buffer[1], buffer[2], buffer[3]];
        proof {
            assert(crc@ =~= buffer@.subrange(0, 4));
        }
        Ok(crc)
    }

    /// Appends the serialized chunk record to `buffer`.
    pub fn encode(&self, buffer: &mut Vec<u8>)
        requires
            self.data@.len() <= u32::MAX,
        ensures
            final(buffer)@ == old(buffer)@ + spec_chunk_bytes(
                spec_tag_bytes(self.chunk_type),
                self.data@,
                self.crc@,
            ),
    {
        let n = self.data.len() as u32;
        buffer.push((n / 0x1000000) as u8);
        buffer.push(((n / 0x10000) % 256) as u8);
        buffer.push(((n / 0x100) % 256) as u8);
        buffer.push((n % 256) as u8);
        proof {
            assert(buffer@ =~= old(buffer)@ + spec_be32_bytes(self.data@.len() as int));
        }
        self.chunk_type.encode(buffer);
        let ghost mid = buffer@;
        let mut i: usize = 0;
        while i < self.data.len()
            invariant
                i <= self.data@.len(),
                buffer@ == mid + self.data@.subrange(0, i as int),
            decreases self.data@.len() - i,
        {
            buffer.push(self.data[i]);
            i = i + 1;
            proof {
                assert(buffer@ =~= mid + self.data@.subrange(0, i as int));
            }
        }
        proof {
            assert(buffer@ =~= mid + self.data@);
        }
        buffer.push(self.crc[0]);
        buffer.push(self.crc[1]);
        buffer.push(self.crc[2]);
        buffer.push(self.crc[3]);
        proof {
            assert(self.crc@ =~= seq![self.crc@[0], self.crc@[1], self.crc@[2], self.crc@[3]]);
            assert(buffer@ =~= old(buffer)@ + spec_chunk_bytes(
                spec_tag_bytes(self.chunk_type),
                self.data@,
                self.crc@,
            ));
        }
    }
}

/// The IEND chunk of a PNG stream, preserved verbatim.
pub struct Terminator {
    /// The underlying chunk.
    pub inner: Chunk,
}

impl Terminator {
    /// Appends the serialized IEND chunk record to `buffer`.
    pub fn encode(&self, buffer: &mut Vec<u8>)
        requires
            self.inner.data@.len() <= u32::MAX,
        ensures
            final(buffer)@ == old(buffer)@ + spec_chunk_bytes(
                spec_tag_bytes(self.inner.chunk_type),
                self.inner.data@,
                self.inner.crc@,
            ),
    {
        self.inner.encode(buffer)
    }
}

} // verus!
