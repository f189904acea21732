use vstd::prelude::*;

verus! {

/// Why a chunk-type code could not be built.
#[derive(Debug, Clone, Copy, PartialEq, Eq, Structural)]
pub enum ChunkTypeDecodingError {
    /// The first byte that is not an ASCII letter.
    BadByte(u8),
    /// A code given as text did not hold exactly four bytes.
    BadLength(usize),
}

/// The errors of parsing, reading and editing PNG data.
#[derive(Debug, Clone, Copy, PartialEq, Eq, Structural)]
pub enum PngError {
    /// The input does not start with the eight signature bytes.
    InvalidSignature,
    /// The input ends before a length, type, data or checksum field does.
    TruncatedInput,
    /// A chunk-type byte is not an ASCII letter.
    InvalidChunkTypeByte(u8),
    /// A chunk-type code given as text is not four bytes long.
    InvalidChunkTypeLength(usize),
    /// The stored checksum differs from the one computed over type and data.
    ChecksumMismatch,
    /// A payload read as text is not valid UTF-8.
    InvalidUtf8Payload,
    /// No chunk has the requested type.
    ChunkNotFound,
}

pub open spec fn spec_from_type_error(e: ChunkTypeDecodingError) -> PngError {
    match e {
        ChunkTypeDecodingError::BadByte(b) => PngError::InvalidChunkTypeByte(b),
        ChunkTypeDecodingError::BadLength(n) => PngError::InvalidChunkTypeLength(n),
    }
}

impl PngError {
    /// The error of this library that stands for a chunk-type construction error.
    pub fn from_type_error(e: ChunkTypeDecodingError) -> (r: PngError)
        ensures
            r == spec_from_type_error(e),
    {
        match e {
            ChunkTypeDecodingError::BadByte(b) => PngError::InvalidChunkTypeByte(b),
            ChunkTypeDecodingError::BadLength(n) => PngError::InvalidChunkTypeLength(n),
        }
    }
}

} // verus!
