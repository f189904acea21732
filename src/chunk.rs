use vstd::prelude::*;
use vstd::utf8::*;

use crate::bytes::{
    be32_bytes, be32_value, lemma_be32_bytes_of_value, lemma_be32_value_of_bytes, string_from_utf8,
    u32_from_be, u32_to_be,
};
use crate::chunk_type::{first_bad_byte, is_type_code, ChunkType};
use crate::error::{spec_from_type_error, PngError};

verus! {

/// The CRC-32/ISO-HDLC checksum of a byte sequence.
pub uninterp spec fn crc32_iso_hdlc(bytes: Seq<u8>) -> u32;

/// Relies on `crc::Crc::<u32>::checksum` with the `CRC_32_ISO_HDLC` parameters:
/// the checksum is a function of the bytes alone.
#[verifier::external_body]
fn crc32_checksum(bytes: &[u8]) -> (r: u32)
    ensures
        r == crc32_iso_hdlc(bytes@),
{
    crc::Crc::<u32>::new(&crc::CRC_32_ISO_HDLC).checksum(bytes)
}

/// What a chunk holds: its type code and its payload. Its length and its
/// checksum follow from these.
pub struct ChunkModel {
    pub chunk_type: Seq<u8>,
    pub data: Seq<u8>,
}

/// A type code of four letters and a payload whose length fits the length field.
pub open spec fn is_chunk_model(m: ChunkModel) -> bool {
    is_type_code(m.chunk_type) && m.data.len() <= u32::MAX
}

/// The checksum of a chunk: over its type code followed by its payload.
pub open spec fn chunk_crc(m: ChunkModel) -> u32 {
    crc32_iso_hdlc(m.chunk_type + m.data)
}

/// The record of a chunk: length, type code, payload and checksum.
pub open spec fn chunk_bytes(m: ChunkModel) -> Seq<u8> {
    be32_bytes(m.data.len() as u32) + m.chunk_type + m.data + be32_bytes(chunk_crc(m))
}

/// The payload length that the first four bytes of a record give.
pub open spec fn length_field(b: Seq<u8>) -> int {
    be32_value(b.subrange(0, 4)) as int
}

/// Reads the chunk record at the start of `b`; bytes after it are not read.
pub open spec fn spec_read_chunk(b: Seq<u8>) -> Result<ChunkModel, PngError> {
    if b.len() < 8 {
        Err(PngError::TruncatedInput)
    } else if !is_type_code(b.subrange(4, 8)) {
        Err(PngError::InvalidChunkTypeByte(first_bad_byte(b.subrange(4, 8))))
    } else if b.len() < 12 + length_field(b) {
        Err(PngError::TruncatedInput)
    } else {
        let n = length_field(b);
        let m = ChunkModel { chunk_type: b.subrange(4, 8), data: b.subrange(8, 8 + n) };
        if be32_value(b.subrange(8 + n, 12 + n)) != chunk_crc(m) {
            Err(PngError::ChecksumMismatch)
        } else {
            Ok(m)
        }
    }
}

/// A chunk: a type code, a payload, and the payload's length and checksum.
#[derive(Debug)]
pub struct Chunk {
    length: u32,
    chunk_type: ChunkType,
    chunk_data: Vec<u8>,
    crc: u32,
}

impl View for Chunk {
    type V = ChunkModel;

    closed spec fn view(&self) -> ChunkModel {
        ChunkModel { chunk_type: self.chunk_type@, data: self.chunk_data@ }
    }
}

impl Chunk {
    #[verifier::type_invariant]
    closed spec fn inv(self) -> bool {
        &&& self.length as int == self.chunk_data@.len()
        &&& self.crc == chunk_crc(self@)
    }

    /// The checksum over the type code followed by the payload.
    fn crc_checksum(chunk_type: &ChunkType, data: &[u8]) -> (r: u32)
        ensures
            r == crc32_iso_hdlc(chunk_type@ + data@),
    {
        let code = chunk_type.bytes();
        let mut bytes: Vec<u8> = Vec::new();
        bytes.push(code[0]);
        bytes.push(code[1]);
        bytes.push(code[2]);
        bytes.push(code[3]);
        assert(bytes@ =~= chunk_type@);
        let mut i: usize = 0;
        while i < data.len()
            invariant
                i <= data@.len(),
                bytes@ =~= chunk_type@ + data@.subrange(0, i as int),
            decreases data@.len() - i,
        {
            bytes.push(data[i]);
            i = i + 1;
        }
        assert(data@.subrange(0, data@.len() as int) =~= data@);
        crc32_checksum(bytes.as_slice())
    }

    /// A chunk of the given type holding `data`, with its length and checksum computed.
    pub fn new(chunk_type: ChunkType, data: Vec<u8>) -> (r: Chunk)
        requires
            data@.len() <= u32::MAX,
        ensures
            r@ == (ChunkModel { chunk_type: chunk_type@, data: data@ }),
    {
        let crc = Self::crc_checksum(&chunk_type, data.as_slice());
        Chunk { length: data.len() as u32, chunk_type, chunk_data: data, crc }
    }

    /// The number of payload bytes.
    pub fn length(&self) -> (r: u32)
        ensures
            r as int == self@.data.len(),
    {
        proof {
            use_type_invariant(self);
        }
        self.length
    }

    /// The type code of this chunk.
    pub fn chunk_type(&self) -> (r: &ChunkType)
        ensures
            r@ == self@.chunk_type,
    {
        &self.chunk_type
    }

    /// The payload bytes.
    pub fn data(&self) -> (r: &[u8])
        ensures
            r@ == self@.data,
    {
        self.chunk_data.as_slice()
    }

    /// The stored checksum, which is that of the type code and payload.
    pub fn crc(&self) -> (r: u32)
        ensures
            r == chunk_crc(self@),
    {
        proof {
            use_type_invariant(self);
        }
        self.crc
    }

    /// The payload as text; fails when it is not valid UTF-8.
    pub fn data_as_string(&self) -> (r: Result<String, PngError>)
        ensures
            r is Ok <==> valid_utf8(self@.data),
            r matches Ok(s) ==> s@ == decode_utf8(self@.data),
            r matches Err(e) ==> e == PngError::InvalidUtf8Payload,
    {
        match string_from_utf8(self.chunk_data.clone()) {
            Some(s) => Ok(s),
            None => Err(PngError::InvalidUtf8Payload),
        }
    }

    /// The record of this chunk: length and checksum big-endian around
    /// the type code and the payload.
    pub fn as_bytes(&self) -> (r: Vec<u8>)
        ensures
            r@ == chunk_bytes(self@),
    {
        proof {
            use_type_invariant(self);
        }
        let mut out: Vec<u8> = Vec::new();
        append_array(&mut out, &u32_to_be(self.length));
        append_array(&mut out, &self.chunk_type.bytes());
        let data = self.chunk_data.as_slice();
        let mut i: usize = 0;
        let ghost head = out@;
        while i < data.len()
            invariant
                i <= data@.len(),
                out@ =~= head + data@.subrange(0, i as int),
            decreases data@.len() - i,
        {
            out.push(data[i]);
            i = i + 1;
        }
        assert(data@.subrange(0, data@.len() as int) =~= data@);
        append_array(&mut out, &u32_to_be(self.crc));
        assert(out@ =~= chunk_bytes(self@));
        out
    }

    /// Reads the chunk record that starts at `start` in `bytes`.
    pub fn read_chunk(bytes: &[u8], start: usize) -> (r: Result<Chunk, PngError>)
        requires
            start <= bytes@.len(),
        ensures
            match r {
                Ok(c) => spec_read_chunk(bytes@.subrange(start as int, bytes@.len() as int))
                    == Ok::<ChunkModel, PngError>(c@),
                Err(e) => spec_read_chunk(bytes@.subrange(start as int, bytes@.len() as int))
                    == Err::<ChunkModel, PngError>(e),
            },
    {
        let ghost b = bytes@.subrange(start as int, bytes@.len() as int);
        let rem = bytes.len() - start;
        if rem < 8 {
            return Err(PngError::TruncatedInput);
        }
        let length = u32_from_be(bytes, start);
        assert(b.subrange(0, 4) =~= bytes@.subrange(start as int, start + 4));
        let code: [u8; 4] = [bytes[start + 4], bytes[start + 5], bytes[start + 6], bytes[start + 7]];
        assert(code@ =~= b.subrange(4, 8));
        let chunk_type = match ChunkType::try_from(code) {
            Ok(t) => t,
            Err(e) => {
                return Err(PngError::from_type_error(e));
            },
        };
        let n = length as usize;
        if rem - 8 < n || rem - 8 - n < 4 {
            return Err(PngError::TruncatedInput);
        }
        let base = start + 8;
        let total = bytes.len();
        let mut data: Vec<u8> = Vec::new();
        let mut i: usize = 0;
        while i < n
            invariant
                i <= n,
                base == start + 8,
                base + n + 4 <= bytes@.len(),
                total == bytes@.len(),
                data@ =~= bytes@.subrange(base as int, base + i),
            decreases n - i,
        {
            data.push(bytes[base + i]);
            i = i + 1;
        }
        assert(data@ =~= b.subrange(8, 8 + n));
        let stored = u32_from_be(bytes, start + 8 + n);
        assert(b.subrange(8 + n, 12 + n) =~= bytes@.subrange(start + 8 + n, start + 12 + n));
        let crc = Self::crc_checksum(&chunk_type, data.as_slice());
        if stored != crc {
            return Err(PngError::ChecksumMismatch);
        }
        Ok(Chunk { length, chunk_type, chunk_data: data, crc })
    }

    /// Reads the chunk record at the start of `bytes`; bytes after it are not read.
    pub fn try_from(bytes: &[u8]) -> (r: Result<Chunk, PngError>)
        ensures
            match r {
                Ok(c) => spec_read_chunk(bytes@) == Ok::<ChunkModel, PngError>(c@),
                Err(e) => spec_read_chunk(bytes@) == Err::<ChunkModel, PngError>(e),
            },
    {
        assert(bytes@.subrange(0, bytes@.len() as int) =~= bytes@);
        Self::read_chunk(bytes, 0)
    }
}

/// Reading a chunk's record, whatever bytes follow it, gives that chunk.
pub proof fn lemma_read_chunk_prefix(m: ChunkModel, rest: Seq<u8>)
    requires
        is_chunk_model(m),
    ensures
        spec_read_chunk(chunk_bytes(m) + rest) == Ok::<ChunkModel, PngError>(m),
        chunk_bytes(m).len() == 12 + m.data.len(),
{
    let b = chunk_bytes(m) + rest;
    let n = m.data.len() as int;
    lemma_be32_value_of_bytes(n as u32);
    lemma_be32_value_of_bytes(chunk_crc(m));
    assert(b.subrange(0, 4) =~= be32_bytes(n as u32));
    assert(b.subrange(4, 8) =~= m.chunk_type);
    assert(b.subrange(8, 8 + n) =~= m.data);
    assert(b.subrange(8 + n, 12 + n) =~= be32_bytes(chunk_crc(m)));
}

/// Parsing the serialized record of a chunk gives back the same chunk: the
/// same type code and payload, and so the same length and checksum.
pub proof fn lemma_chunk_round_trip(m: ChunkModel)
    requires
        is_chunk_model(m),
    ensures
        spec_read_chunk(chunk_bytes(m)) == Ok::<ChunkModel, PngError>(m),
{
    lemma_read_chunk_prefix(m, seq![]);
    assert(chunk_bytes(m) + seq![] =~= chunk_bytes(m));
}

/// A record whose checksum field differs from the checksum of the type code
/// and payload that it carries is refused with a checksum mismatch.
pub proof fn lemma_checksum_mismatch_refused(t: Seq<u8>, d: Seq<u8>, stored: Seq<u8>)
    requires
        is_type_code(t),
        d.len() <= u32::MAX,
        stored.len() == 4,
        be32_value(stored) != crc32_iso_hdlc(t + d),
    ensures
        spec_read_chunk(be32_bytes(d.len() as u32) + t + d + stored) == Err::<ChunkModel, PngError>(
            PngError::ChecksumMismatch,
        ),
{
    let b = be32_bytes(d.len() as u32) + t + d + stored;
    let n = d.len() as int;
    lemma_be32_value_of_bytes(n as u32);
    assert(b.subrange(0, 4) =~= be32_bytes(n as u32));
    assert(b.subrange(4, 8) =~= t);
    assert(b.subrange(8, 8 + n) =~= d);
    assert(b.subrange(8 + n, 12 + n) =~= stored);
}

fn append_array(out: &mut Vec<u8>, a: &[u8; 4])
    ensures
        final(out)@ == old(out)@ + a@,
{
    out.push(a[0]);
    out.push(a[1]);
    out.push(a[2]);
    out.push(a[3]);
    assert(final(out)@ =~= old(out)@ + a@);
}

} // verus!
