use png_stego::chunk::Chunk;
use png_stego::chunk_type::ChunkType;
use png_stego::crc::crc32_pair;
use png_stego::png::Png;
use png_stego::PngError;

fn tag(bytes: &[u8; 4]) -> ChunkType {
    ChunkType::parse(*bytes).expect("valid tag")
}

fn chunk(t: &[u8; 4], data: &[u8]) -> Chunk {
    Chunk::new(tag(t), data.to_vec())
}

fn minimal_png() -> Png {
    let mut png = Png::new();
    png.append_chunk(chunk(b"IHDR", &[0, 0, 0, 1, 0, 0, 0, 1, 8, 6, 0, 0, 0]));
    png.append_chunk(chunk(b"IEND", &[]));
    png
}

#[test]
fn chunk_type_parse_accepts_letters() {
    let t = ChunkType::parse(*b"ruSt").unwrap();
    assert_eq!(t.bytes(), *b"ruSt");
}

#[test]
fn chunk_type_parse_rejects_non_letters() {
    assert_eq!(ChunkType::parse(*b"ru1t"), Err(PngError::Format));
    assert_eq!(ChunkType::parse([0x20, 0x61, 0x62, 0x63]), Err(PngError::Format));
}

#[test]
fn chunk_type_property_bits() {
    let t = tag(b"ruSt");
    assert!(t.is_ancillary());
    assert!(t.is_private());
    assert!(t.is_safe_to_copy());
    assert!(t.is_valid());

    let t2 = tag(b"RuSt");
    assert!(!t2.is_ancillary());

    let t3 = tag(b"rust");
    assert!(!t3.is_valid());

    let t4 = tag(b"IHDR");
    assert!(!t4.is_ancillary());
    assert!(!t4.is_private());
    assert!(!t4.is_safe_to_copy());
    assert!(t4.is_valid());
}

#[test]
fn chunk_type_to_text_preserves_case() {
    assert_eq!(tag(b"ruSt").to_text(), "ruSt");
    assert_eq!(tag(b"IEND").to_text(), "IEND");
}

#[test]
fn crc32_known_vector() {
    // CRC-32 (IEEE) of the ASCII bytes "IEND".
    assert_eq!(crc32_pair(b"IEND", b""), 0xAE42_6082);
    // Split points must not matter.
    assert_eq!(crc32_pair(b"IE", b"ND"), 0xAE42_6082);
    // CRC-32 of the empty sequence is zero.
    assert_eq!(crc32_pair(b"", b""), 0);
}

#[test]
fn chunk_serialize_exact_bytes() {
    let c = chunk(b"IEND", &[]);
    assert_eq!(c.length(), 0);
    assert_eq!(c.crc(), 0xAE42_6082);
    assert_eq!(
        c.serialize(),
        vec![0, 0, 0, 0, 0x49, 0x45, 0x4E, 0x44, 0xAE, 0x42, 0x60, 0x82]
    );
}

#[test]
fn chunk_round_trip() {
    let c = chunk(b"ruSt", b"hello");
    let bytes = c.serialize();
    let parsed = Chunk::parse(&bytes).unwrap();
    assert_eq!(parsed, c);
    assert_eq!(parsed.chunk_type().bytes(), *b"ruSt");
    assert_eq!(parsed.data(), &b"hello".to_vec());
}

#[test]
fn chunk_round_trip_empty_data() {
    let c = chunk(b"teXt", &[]);
    assert_eq!(Chunk::parse(&c.serialize()).unwrap(), c);
}

#[test]
fn chunk_parse_rejects_short_buffer() {
    assert_eq!(Chunk::parse(&[0, 0, 0, 0]), Err(PngError::Format));
    let c = chunk(b"ruSt", b"hello");
    let bytes = c.serialize();
    assert_eq!(Chunk::parse(&bytes[..bytes.len() - 1]), Err(PngError::Format));
}

#[test]
fn chunk_parse_rejects_checksum_mismatch() {
    let c = chunk(b"ruSt", b"hello");
    let mut bytes = c.serialize();
    let last = bytes.len() - 1;
    bytes[last] ^= 0xFF;
    assert_eq!(Chunk::parse(&bytes), Err(PngError::Format));
}

#[test]
fn chunk_parse_detects_any_single_bit_flip_in_type_or_data() {
    let c = chunk(b"ruSt", b"hello");
    let bytes = c.serialize();
    // Bytes 4..8 hold the type, 8..13 the data; flip every bit of each.
    for pos in 4..13 {
        for bit in 0..8 {
            let mut mutated = bytes.clone();
            mutated[pos] ^= 1u8 << bit;
            assert_eq!(
                Chunk::parse(&mutated),
                Err(PngError::Format),
                "flip at byte {pos}, bit {bit} must be caught"
            );
        }
    }
}

#[test]
fn chunk_length_field_is_big_endian() {
    let data = vec![7u8; 300];
    let c = chunk(b"ruSt", &data);
    let bytes = c.serialize();
    // 300 = 0x01_2C, written big-endian in the 4-byte count.
    assert_eq!(&bytes[0..4], &[0, 0, 1, 0x2C]);
    assert_eq!(bytes.len(), 312);
    assert_eq!(Chunk::parse(&bytes).unwrap(), c);
}

#[test]
fn chunk_data_as_string_decodes_utf8() {
    let c = chunk(b"ruSt", "héllo".as_bytes());
    assert_eq!(c.data_as_string().unwrap(), "héllo");
}

#[test]
fn chunk_data_as_string_rejects_binary() {
    let c = chunk(b"ruSt", &[0xFF, 0xFE, 0x00]);
    assert_eq!(c.data_as_string(), Err(PngError::Encoding));
}

#[test]
fn png_round_trip() {
    let mut png = minimal_png();
    png.append_chunk(chunk(b"ruSt", b"secret"));
    let bytes = png.serialize();
    let parsed = Png::parse(&bytes).unwrap();
    assert_eq!(parsed, png);
}

#[test]
fn png_empty_round_trip() {
    let png = Png::new();
    let bytes = png.serialize();
    assert_eq!(bytes, vec![0x89, 0x50, 0x4E, 0x47, 0x0D, 0x0A, 0x1A, 0x0A]);
    assert_eq!(Png::parse(&bytes).unwrap(), png);
}

#[test]
fn png_from_chunks_matches_appends() {
    let chunks = vec![chunk(b"IHDR", &[1, 2]), chunk(b"IEND", &[])];
    let png = Png::from_chunks(chunks);
    let mut built = Png::new();
    built.append_chunk(chunk(b"IHDR", &[1, 2]));
    built.append_chunk(chunk(b"IEND", &[]));
    assert_eq!(png, built);
}

#[test]
fn png_parse_rejects_bad_signature() {
    let mut bytes = minimal_png().serialize();
    bytes[0] = 0x88;
    assert_eq!(Png::parse(&bytes), Err(PngError::Format));
    assert_eq!(Png::parse(&[]), Err(PngError::Format));
}

#[test]
fn png_parse_rejects_corrupt_chunk() {
    let mut bytes = minimal_png().serialize();
    let last = bytes.len() - 1;
    bytes[last] ^= 0x01;
    assert_eq!(Png::parse(&bytes), Err(PngError::Format));
}

#[test]
fn png_parse_rejects_trailing_garbage() {
    let mut bytes = minimal_png().serialize();
    bytes.push(0x00);
    assert_eq!(Png::parse(&bytes), Err(PngError::Format));
}

#[test]
fn png_find_first_match_in_order() {
    let mut png = Png::new();
    png.append_chunk(chunk(b"ruSt", b"one"));
    png.append_chunk(chunk(b"ruSt", b"two"));
    let found = png.chunk_by_type(b"ruSt").unwrap();
    assert_eq!(found.data(), &b"one".to_vec());
    assert!(png.chunk_by_type(b"zzZz").is_none());
}

#[test]
fn png_remove_first_match_keeps_order() {
    let mut png = Png::new();
    png.append_chunk(chunk(b"aaAa", b"1"));
    png.append_chunk(chunk(b"ruSt", b"2"));
    png.append_chunk(chunk(b"bbBb", b"3"));
    let removed = png.remove_chunk(b"ruSt").unwrap();
    assert_eq!(removed.data(), &b"2".to_vec());
    let tags: Vec<[u8; 4]> = png.chunks().iter().map(|c| c.chunk_type().bytes()).collect();
    assert_eq!(tags, vec![*b"aaAa", *b"bbBb"]);
    assert_eq!(png.remove_chunk(b"ruSt"), Err(PngError::NotFound));
}
