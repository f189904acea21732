use pngme::chunk::Chunk;
use pngme::chunk_type::ChunkType;
use pngme::error::PngError;

fn record(data_length: u32, chunk_type: &[u8], message_bytes: &[u8], crc: u32) -> Vec<u8> {
    data_length
        .to_be_bytes()
        .iter()
        .chain(chunk_type.iter())
        .chain(message_bytes.iter())
        .chain(crc.to_be_bytes().iter())
        .copied()
        .collect()
}

fn testing_chunk() -> Chunk {
    let data_length: u32 = 42;
    let chunk_type = "RuSt".as_bytes();
    let message_bytes = "This is where your secret message will be!".as_bytes();
    let crc: u32 = 2882656334;

    let chunk_data = record(data_length, chunk_type, message_bytes, crc);

    Chunk::try_from(chunk_data.as_ref()).unwrap()
}

#[test]
fn test_new_chunk() {
    let chunk_type = ChunkType::from_str("RuSt").unwrap();
    let data = "This is where your secret message will be!".as_bytes().to_vec();
    let chunk = Chunk::new(chunk_type, data);
    assert_eq!(chunk.length(), 42);
    assert_eq!(chunk.crc(), 2882656334);
}

#[test]
fn test_chunk_length() {
    let chunk = testing_chunk();
    assert_eq!(chunk.length(), 42);
}

#[test]
fn test_chunk_type() {
    let chunk = testing_chunk();
    assert_eq!(chunk.chunk_type().to_string(), String::from("RuSt"));
}

#[test]
fn test_chunk_string() {
    let chunk = testing_chunk();
    let chunk_string = chunk.data_as_string().unwrap();
    let expected_chunk_string = String::from("This is where your secret message will be!");
    assert_eq!(chunk_string, expected_chunk_string);
}

#[test]
fn test_chunk_crc() {
    let chunk = testing_chunk();
    assert_eq!(chunk.crc(), 2882656334);
}

#[test]
fn test_valid_chunk_from_bytes() {
    let data_length: u32 = 42;
    let chunk_type = "RuSt".as_bytes();
    let message_bytes = "This is where your secret message will be!".as_bytes();
    let crc: u32 = 2882656334;

    let chunk_data = record(data_length, chunk_type, message_bytes, crc);

    let chunk = Chunk::try_from(chunk_data.as_ref()).unwrap();

    let chunk_string = chunk.data_as_string().unwrap();
    let expected_chunk_string = String::from("This is where your secret message will be!");

    assert_eq!(chunk.length(), 42);
    assert_eq!(chunk.chunk_type().to_string(), String::from("RuSt"));
    assert_eq!(chunk_string, expected_chunk_string);
    assert_eq!(chunk.crc(), 2882656334);
}

#[test]
fn test_invalid_chunk_from_bytes() {
    let data_length: u32 = 42;
    let chunk_type = "RuSt".as_bytes();
    let message_bytes = "This is where your secret message will be!".as_bytes();
    let crc: u32 = 2882656333;

    let chunk_data = record(data_length, chunk_type, message_bytes, crc);

    let chunk = Chunk::try_from(chunk_data.as_ref());

    assert!(chunk.is_err());
}

#[test]
pub fn test_chunk_trait_impls() {
    let data_length: u32 = 42;
    let chunk_type = "RuSt".as_bytes();
    let message_bytes = "This is where your secret message will be!".as_bytes();
    let crc: u32 = 2882656334;

    let chunk_data = record(data_length, chunk_type, message_bytes, crc);

    let chunk: Chunk = Chunk::try_from(chunk_data.as_ref()).unwrap();

    let _chunk_string = format!("{:?}", chunk);
}

#[test]
fn corrupted_crc_is_checksum_mismatch() {
    let message = "This is where your secret message will be!".as_bytes();
    let bytes = record(42, b"RuSt", message, 2882656333);
    assert_eq!(Chunk::try_from(&bytes).unwrap_err(), PngError::ChecksumMismatch);
}

#[test]
fn as_bytes_layout_and_round_trip() {
    let message = "This is where your secret message will be!".as_bytes();
    let chunk = Chunk::new(ChunkType::from_str("RuSt").unwrap(), message.to_vec());
    let bytes = chunk.as_bytes();
    assert_eq!(bytes, record(42, b"RuSt", message, 2882656334));
    assert_eq!(bytes.len(), 12 + 42);
    let back = Chunk::try_from(&bytes).unwrap();
    assert_eq!(back.length(), chunk.length());
    assert_eq!(back.chunk_type(), chunk.chunk_type());
    assert_eq!(back.data(), chunk.data());
    assert_eq!(back.crc(), chunk.crc());
}

#[test]
fn empty_payload_round_trip() {
    let chunk = Chunk::new(ChunkType::from_str("IEND").unwrap(), Vec::new());
    assert_eq!(chunk.length(), 0);
    // CRC-32 of the four bytes "IEND", as every PNG file ends with it.
    assert_eq!(chunk.crc(), 0xAE42_6082);
    let bytes = chunk.as_bytes();
    assert_eq!(bytes, vec![0, 0, 0, 0, 73, 69, 78, 68, 0xAE, 0x42, 0x60, 0x82]);
    let back = Chunk::try_from(&bytes).unwrap();
    assert_eq!(back.data(), &[] as &[u8]);
}

#[test]
fn single_bit_flips_are_refused() {
    let message = "This is where your secret message will be!".as_bytes();
    let good = record(42, b"RuSt", message, 2882656334);
    for byte in 4..good.len() {
        for bit in 0..8 {
            let mut bad = good.clone();
            bad[byte] ^= 1 << bit;
            let r = Chunk::try_from(&bad);
            assert!(r.is_err());
            if byte >= 8 || bit == 5 {
                assert_eq!(r.unwrap_err(), PngError::ChecksumMismatch);
            }
        }
    }
}

#[test]
fn parse_errors() {
    let message = b"hello";
    let good = record(5, b"ruSt", message, 0);
    let crc = Chunk::new(ChunkType::from_str("ruSt").unwrap(), message.to_vec()).crc();
    let good_crc = record(5, b"ruSt", message, crc);
    assert!(Chunk::try_from(&good_crc).is_ok());
    assert_eq!(Chunk::try_from(&good[..3]).unwrap_err(), PngError::TruncatedInput);
    assert_eq!(Chunk::try_from(&good[..7]).unwrap_err(), PngError::TruncatedInput);
    assert_eq!(Chunk::try_from(&good_crc[..good_crc.len() - 1]).unwrap_err(), PngError::TruncatedInput);
    assert_eq!(Chunk::try_from(&good_crc[..10]).unwrap_err(), PngError::TruncatedInput);
    let bad_type = record(5, b"ru5t", message, crc);
    assert_eq!(Chunk::try_from(&bad_type).unwrap_err(), PngError::InvalidChunkTypeByte(b'5'));
    assert_eq!(Chunk::try_from(&[]).unwrap_err(), PngError::TruncatedInput);
}

#[test]
fn data_as_string_rejects_invalid_utf8() {
    let chunk = Chunk::new(ChunkType::from_str("ruSt").unwrap(), vec![0x66, 0xff, 0x6f]);
    assert_eq!(chunk.data_as_string(), Err(PngError::InvalidUtf8Payload));
    let chunk = Chunk::new(ChunkType::from_str("ruSt").unwrap(), "h\u{e9}llo".as_bytes().to_vec());
    assert_eq!(chunk.data_as_string().unwrap(), "h\u{e9}llo");
}
