use vstd::prelude::*;
use vstd::slice::slice_to_vec;
use vstd::string::*;
use vstd::utf8::*;

use crate::chunk::{Chunk, ChunkModel};
use crate::chunk_type::{first_bad_byte, is_type_code, ChunkType};
use crate::error::PngError;
use crate::png::{has_type, is_first_of_type, png_bytes, spec_parse_png, Png};

verus! {

/// The type code that a text names, or why it names none.
pub open spec fn spec_type_from_text(t: Seq<u8>) -> Result<Seq<u8>, PngError> {
    if t.len() != 4 {
        Err(PngError::InvalidChunkTypeLength(t.len() as usize))
    } else if !is_type_code(t) {
        Err(PngError::InvalidChunkTypeByte(first_bad_byte(t)))
    } else {
        Ok(t)
    }
}

fn parse_type(chunk_type: &str) -> (r: Result<ChunkType, PngError>)
    ensures
        match r {
            Ok(c) => spec_type_from_text(chunk_type.spec_bytes()) == Ok::<Seq<u8>, PngError>(c@),
            Err(e) => spec_type_from_text(chunk_type.spec_bytes()) == Err::<Seq<u8>, PngError>(e),
        },
{
    match ChunkType::from_str(chunk_type) {
        Ok(c) => Ok(c),
        Err(e) => Err(PngError::from_type_error(e)),
    }
}

/// Reads the PNG file `png`, adds at its end a chunk of type `chunk_type`
/// holding the bytes of `message`, and returns the new file.
pub fn encode_message(png: &[u8], chunk_type: &str, message: &str) -> (r: Result<Vec<u8>, PngError>)
    requires
        message.spec_bytes().len() <= u32::MAX,
    ensures
        match spec_parse_png(png@) {
            Err(e) => r == Err::<Vec<u8>, PngError>(e),
            Ok(cs) => match spec_type_from_text(chunk_type.spec_bytes()) {
                Err(e) => r == Err::<Vec<u8>, PngError>(e),
                Ok(t) => r matches Ok(out) && out@ == png_bytes(
                    cs.push(ChunkModel { chunk_type: t, data: message.spec_bytes() }),
                ),
            },
        },
{
    let mut file = match Png::try_from(png) {
        Ok(p) => p,
        Err(e) => {
            return Err(e);
        },
    };
    let t = match parse_type(chunk_type) {
        Ok(t) => t,
        Err(e) => {
            return Err(e);
        },
    };
    let data = slice_to_vec(message.as_bytes());
    file.append_chunk(Chunk::new(t, data));
    Ok(file.as_bytes())
}

/// Reads the PNG file `png` and returns, as text, the payload of its first
/// chunk of type `chunk_type`.
pub fn decode_message(png: &[u8], chunk_type: &str) -> (r: Result<String, PngError>)
    ensures
        match spec_parse_png(png@) {
            Err(e) => r == Err::<String, PngError>(e),
            Ok(cs) => if !has_type(cs, chunk_type.spec_bytes()) {
                r == Err::<String, PngError>(PngError::ChunkNotFound)
            } else {
                exists|i: int|
                    #![trigger cs[i]]
                    is_first_of_type(cs, chunk_type.spec_bytes(), i) && (if valid_utf8(cs[i].data) {
                        r matches Ok(s) && s@ == decode_utf8(cs[i].data)
                    } else {
                        r == Err::<String, PngError>(PngError::InvalidUtf8Payload)
                    })
            },
        },
{
    let file = match Png::try_from(png) {
        Ok(p) => p,
        Err(e) => {
            return Err(e);
        },
    };
    match file.chunk_by_type(chunk_type) {
        Some(c) => c.data_as_string(),
        None => Err(PngError::ChunkNotFound),
    }
}

/// Reads the PNG file `png`, takes out its first chunk of type
/// `chunk_type`, and returns the new file.
pub fn remove_message(png: &[u8], chunk_type: &str) -> (r: Result<Vec<u8>, PngError>)
    ensures
        match spec_parse_png(png@) {
            Err(e) => r == Err::<Vec<u8>, PngError>(e),
            Ok(cs) => if !has_type(cs, chunk_type.spec_bytes()) {
                r == Err::<Vec<u8>, PngError>(PngError::ChunkNotFound)
            } else {
                exists|i: int|
                    #![trigger cs[i]]
                    is_first_of_type(cs, chunk_type.spec_bytes(), i) && (r matches Ok(out)
                        && out@ == png_bytes(cs.remove(i)))
            },
        },
{
    let mut file = match Png::try_from(png) {
        Ok(p) => p,
        Err(e) => {
            return Err(e);
        },
    };
    match file.remove_chunk(chunk_type) {
        Ok(_) => Ok(file.as_bytes()),
        Err(e) => Err(e),
    }
}

} // verus!
