use pngme::chunk_type::ChunkType;
use pngme::error::ChunkTypeDecodingError;

#[test]
pub fn test_chunk_type_from_bytes() {
    let expected = [82, 117, 83, 116];
    let actual = ChunkType::try_from([82, 117, 83, 116]).unwrap();

    assert_eq!(expected, actual.bytes());
}

#[test]
pub fn test_chunk_type_from_str() {
    let expected = ChunkType::try_from([82, 117, 83, 116]).unwrap();
    let actual = ChunkType::from_str("RuSt").unwrap();
    assert_eq!(expected, actual);
}

#[test]
pub fn test_chunk_type_is_critical() {
    let chunk = ChunkType::from_str("RuSt").unwrap();
    assert!(chunk.is_critical());
}

#[test]
pub fn test_chunk_type_is_not_critical() {
    let chunk = ChunkType::from_str("ruSt").unwrap();
    assert!(!chunk.is_critical());
}

#[test]
pub fn test_chunk_type_is_public() {
    let chunk = ChunkType::from_str("RUSt").unwrap();
    assert!(chunk.is_public());
}

#[test]
pub fn test_chunk_type_is_not_public() {
    let chunk = ChunkType::from_str("RuSt").unwrap();
    assert!(!chunk.is_public());
}

#[test]
pub fn test_chunk_type_is_reserved_bit_valid() {
    let chunk = ChunkType::from_str("RuSt").unwrap();
    assert!(chunk.is_reserved_bit_valid());
}

#[test]
pub fn test_chunk_type_is_reserved_bit_invalid() {
    let chunk = ChunkType::from_str("Rust").unwrap();
    assert!(!chunk.is_reserved_bit_valid());
}

#[test]
pub fn test_chunk_type_is_safe_to_copy() {
    let chunk = ChunkType::from_str("RuSt").unwrap();
    assert!(chunk.is_safe_to_copy());
}

#[test]
pub fn test_chunk_type_is_unsafe_to_copy() {
    let chunk = ChunkType::from_str("RuST").unwrap();
    assert!(!chunk.is_safe_to_copy());
}

#[test]
pub fn test_valid_chunk_is_valid() {
    let chunk = ChunkType::from_str("RuSt").unwrap();
    assert!(chunk.is_valid());
}

#[test]
pub fn test_invalid_chunk_is_valid() {
    let chunk = ChunkType::from_str("Rust").unwrap();
    assert!(!chunk.is_valid());

    let chunk = ChunkType::from_str("Ru1t");
    assert!(chunk.is_err());
}

#[test]
pub fn test_chunk_type_string() {
    let chunk = ChunkType::from_str("RuSt").unwrap();
    assert_eq!(&chunk.to_string(), "RuSt");
}

#[test]
pub fn test_chunk_type_trait_impls() {
    let chunk_type_1: ChunkType = ChunkType::try_from([82, 117, 83, 116]).unwrap();
    let chunk_type_2: ChunkType = ChunkType::from_str("RuSt").unwrap();
    let _chunk_string = chunk_type_1.to_string();
    let _are_chunks_equal = chunk_type_1 == chunk_type_2;
}

#[test]
fn rust_type_property_bits() {
    let t = ChunkType::from_str("RuSt").unwrap();
    assert!(t.is_critical());
    assert!(!t.is_public());
    assert!(t.is_reserved_bit_valid());
    assert!(t.is_safe_to_copy());
    let t = ChunkType::from_str("Rust").unwrap();
    assert!(!t.is_reserved_bit_valid());
    assert!(!t.is_valid());
    let t = ChunkType::from_str("ruSt").unwrap();
    assert!(!t.is_critical());
}

#[test]
fn validity_ignores_other_letters_case() {
    for code in ["RuSt", "ruSt", "RUSt", "RuST", "ruST", "rUSt"] {
        assert!(ChunkType::from_str(code).unwrap().is_valid());
    }
    for code in ["Rust", "rust", "RUsT", "rUsT"] {
        assert!(!ChunkType::from_str(code).unwrap().is_valid());
    }
}

#[test]
fn from_str_errors() {
    assert_eq!(ChunkType::from_str("Ru1t"), Err(ChunkTypeDecodingError::BadByte(b'1')));
    assert_eq!(ChunkType::from_str("Ru"), Err(ChunkTypeDecodingError::BadLength(2)));
    assert_eq!(ChunkType::from_str("RuStX"), Err(ChunkTypeDecodingError::BadLength(5)));
    assert_eq!(ChunkType::from_str(""), Err(ChunkTypeDecodingError::BadLength(0)));
    assert_eq!(ChunkType::from_str("R@S["), Err(ChunkTypeDecodingError::BadByte(b'@')));
}

#[test]
fn from_bytes_errors() {
    assert_eq!(ChunkType::try_from([82, 117, 83, 0]), Err(ChunkTypeDecodingError::BadByte(0)));
    assert_eq!(ChunkType::try_from([91, 96, 83, 116]), Err(ChunkTypeDecodingError::BadByte(91)));
    assert_eq!(ChunkType::try_from([65, 90, 97, 122]).unwrap().bytes(), [65, 90, 97, 122]);
}
