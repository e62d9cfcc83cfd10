use png_stego::chunk::Chunk;
use png_stego::chunk_type::ChunkType;
use png_stego::png::Png;
use png_stego::policy::{
    decode_message, encode_mutation, is_critical_tag, list_chunk_types, remove_mutation,
    validate_new_tag,
};
use png_stego::PngError;

fn chunk(t: &[u8; 4], data: &[u8]) -> Chunk {
    Chunk::new(ChunkType::parse(*t).unwrap(), data.to_vec())
}

fn minimal_png_bytes() -> Vec<u8> {
    let mut png = Png::new();
    png.append_chunk(chunk(b"IHDR", &[0, 0, 0, 1, 0, 0, 0, 1, 8, 6, 0, 0, 0]));
    png.append_chunk(chunk(b"IEND", &[]));
    png.serialize()
}

#[test]
fn critical_tags_recognized() {
    assert!(is_critical_tag(b"IHDR"));
    assert!(is_critical_tag(b"PLTE"));
    assert!(is_critical_tag(b"IDAT"));
    assert!(is_critical_tag(b"IEND"));
    assert!(!is_critical_tag(b"ruSt"));
    assert!(!is_critical_tag(b"IHD"));
}

#[test]
fn validate_new_tag_rules() {
    assert_eq!(validate_new_tag(b"IEND"), Err(PngError::Validation));
    assert_eq!(validate_new_tag(b"rust"), Err(PngError::Validation));
    assert_eq!(validate_new_tag(b"ruSt"), Ok(()));
}

#[test]
fn encode_then_decode_returns_message() {
    let original = minimal_png_bytes();
    let encoded = encode_mutation(&original, b"ruSt", b"hello").unwrap();
    assert_eq!(decode_message(&encoded, b"ruSt").unwrap(), "hello");
    // The container still parses and IEND is structurally last.
    let png = Png::parse(&encoded).unwrap();
    let last = png.chunks().last().unwrap();
    assert_eq!(last.chunk_type().bytes(), *b"IEND");
}

#[test]
fn encode_rejects_duplicate_tag() {
    let original = minimal_png_bytes();
    let once = encode_mutation(&original, b"ruSt", b"one").unwrap();
    assert_eq!(encode_mutation(&once, b"ruSt", b"two"), Err(PngError::Validation));
    // Only a single chunk with the tag exists.
    let tags = list_chunk_types(&once).unwrap();
    let count = tags.iter().filter(|t| t.bytes() == *b"ruSt").count();
    assert_eq!(count, 1);
}

#[test]
fn encode_without_trailer_is_not_found() {
    let mut png = Png::new();
    png.append_chunk(chunk(b"IHDR", &[1, 2, 3]));
    assert_eq!(
        encode_mutation(&png.serialize(), b"ruSt", b"x"),
        Err(PngError::NotFound)
    );
}

#[test]
fn encode_rejects_unparseable_container() {
    assert_eq!(encode_mutation(&[1, 2, 3], b"ruSt", b"x"), Err(PngError::Format));
}

#[test]
fn encode_rejects_non_alphabetic_tag() {
    let original = minimal_png_bytes();
    assert_eq!(encode_mutation(&original, b"ru5T", b"x"), Err(PngError::Format));
    assert_eq!(encode_mutation(&original, b"ruSTx", b"x"), Err(PngError::Format));
}

#[test]
fn decode_reports_each_outcome() {
    let original = minimal_png_bytes();
    assert_eq!(decode_message(&original, b"zzZz"), Err(PngError::NotFound));
    assert_eq!(decode_message(&[0, 1], b"zzZz"), Err(PngError::Format));
    // A binary payload is a distinct encoding outcome, not a crash.
    let mut png = Png::parse(&original).unwrap();
    let end = png.remove_chunk(b"IEND").unwrap();
    png.append_chunk(chunk(b"biNy", &[0xFF, 0xFE]));
    png.append_chunk(end);
    assert_eq!(
        decode_message(&png.serialize(), b"biNy"),
        Err(PngError::Encoding)
    );
}

#[test]
fn remove_deletes_the_tag() {
    let original = minimal_png_bytes();
    let encoded = encode_mutation(&original, b"ruSt", b"hello").unwrap();
    let removed = remove_mutation(&encoded, b"ruSt").unwrap();
    assert_eq!(decode_message(&removed, b"ruSt"), Err(PngError::NotFound));
    // Removing the payload chunk restores the original byte sequence.
    assert_eq!(removed, original);
}

#[test]
fn remove_absent_tag_is_not_found() {
    let original = minimal_png_bytes();
    assert_eq!(remove_mutation(&original, b"zzZz"), Err(PngError::NotFound));
}

#[test]
fn list_chunk_types_in_order() {
    let original = minimal_png_bytes();
    let encoded = encode_mutation(&original, b"ruSt", b"hello").unwrap();
    let tags: Vec<[u8; 4]> = list_chunk_types(&encoded).unwrap().iter().map(|t| t.bytes()).collect();
    assert_eq!(tags, vec![*b"IHDR", *b"ruSt", *b"IEND"]);
}
