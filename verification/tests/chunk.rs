use png_chunks::png_chunk::PngChunk;
use png_chunks::png_chunk_type::PngChunkType;
use png_chunks::source::{ByteSource, BytesReader, IoError};

fn text_chunk_bytes(payload: &[u8], crc: [u8; 4]) -> Vec<u8> {
    let mut v = Vec::new();
    v.extend_from_slice(&(payload.len() as u32).to_be_bytes());
    v.extend_from_slice(b"tEXt");
    v.extend_from_slice(payload);
    v.extend_from_slice(&crc);
    v
}

#[test]
fn parse_empty_source_is_clean_eof() {
    let mut r = BytesReader::new(Vec::new());
    let res = PngChunk::from_reader(&mut r);
    assert!(matches!(res, Ok(None)));
}

#[test]
fn parse_two_bytes_is_truncation_not_eof() {
    let mut r = BytesReader::new(vec![0x00, 0x01]);
    let res = PngChunk::from_reader(&mut r);
    assert!(matches!(res, Err(IoError::UnexpectedEof)));
}

#[test]
fn parse_short_payload_is_truncation() {
    // A full 4-byte length announcing 5 payload bytes, but the stream stops
    // after the type tag and 2 payload bytes.
    let mut v = vec![0x00, 0x00, 0x00, 0x05];
    v.extend_from_slice(b"tEXt");
    v.extend_from_slice(&[0x61, 0x62]);
    let mut r = BytesReader::new(v);
    let res = PngChunk::from_reader(&mut r);
    assert!(matches!(res, Err(IoError::UnexpectedEof)));
}

#[test]
fn parse_missing_checksum_is_truncation() {
    let mut v = vec![0x00, 0x00, 0x00, 0x02];
    v.extend_from_slice(b"tEXt");
    v.extend_from_slice(&[0x68, 0x69]);
    v.extend_from_slice(&[0xAA, 0xBB]);
    let mut r = BytesReader::new(v);
    let res = PngChunk::from_reader(&mut r);
    assert!(matches!(res, Err(IoError::UnexpectedEof)));
}

#[test]
fn parse_reads_fields_verbatim_without_checksum_validation() {
    // The stored checksum disagrees with the payload; parsing accepts it.
    let bytes = text_chunk_bytes(b"hi", [0xDE, 0xAD, 0xBE, 0xEF]);
    let mut r = BytesReader::new(bytes);
    let c = PngChunk::from_reader(&mut r).unwrap().unwrap();
    assert_eq!(c.len, 2);
    assert_eq!(c.typ.as_slice(), b"tEXt");
    assert_eq!(c.data, b"hi".to_vec());
    assert_eq!(c.crc, [0xDE, 0xAD, 0xBE, 0xEF]);
}

#[test]
fn round_trip_reproduces_parsed_bytes() {
    let bytes = text_chunk_bytes(b"hello", [1, 2, 3, 4]);
    let mut r = BytesReader::new(bytes.clone());
    let c = PngChunk::from_reader(&mut r).unwrap().unwrap();
    assert_eq!(c.into_vec(), bytes);
}

#[test]
fn round_trip_of_first_chunk_leaves_the_rest() {
    let first = text_chunk_bytes(b"one", [9, 9, 9, 9]);
    let second = text_chunk_bytes(b"two", [7, 7, 7, 7]);
    let mut all = first.clone();
    all.extend_from_slice(&second);
    let mut r = BytesReader::new(all);
    let c1 = PngChunk::from_reader(&mut r).unwrap().unwrap();
    assert_eq!(c1.into_vec(), first);
    let c2 = PngChunk::from_reader(&mut r).unwrap().unwrap();
    assert_eq!(c2.into_vec(), second);
    assert!(matches!(PngChunk::from_reader(&mut r), Ok(None)));
}

#[test]
fn text_chunk_crc_covers_payload_only() {
    let c = PngChunk::new_text_chunk(String::from("hello"));
    let payload_only = crc32fast::hash(b"hello").to_be_bytes();
    let with_type_tag = crc32fast::hash(b"tEXthello").to_be_bytes();
    assert_eq!(c.crc, payload_only);
    assert_ne!(c.crc, with_type_tag);
}

#[test]
fn text_chunk_fields() {
    let c = PngChunk::new_text_chunk(String::from("hello"));
    assert_eq!(c.len, 5);
    assert!(c.typ.is_text());
    assert_eq!(c.data, b"hello".to_vec());
}

#[test]
fn text_chunk_serializes_with_big_endian_length() {
    let c = PngChunk::new_text_chunk(String::from("hello"));
    let crc = crc32fast::hash(b"hello").to_be_bytes();
    let bin = c.into_vec();
    assert_eq!(&bin[0..4], &[0x00, 0x00, 0x00, 0x05]);
    assert_eq!(&bin[4..8], b"tEXt");
    assert_eq!(&bin[8..13], b"hello");
    assert_eq!(&bin[13..17], &crc);
}

#[test]
fn render_text_chunk() {
    let c = PngChunk::new_text_chunk(String::from("hi"));
    let expected = format!(
        "Chunk type: tEXt, Data len: 2, CRC: {:#X} - \"hi\"",
        crc32fast::hash(b"hi")
    );
    assert_eq!(c.render().unwrap(), expected);
}

#[test]
fn render_non_text_chunk_has_no_payload_text() {
    let c = PngChunk {
        len: 3,
        typ: PngChunkType::new(*b"IHDR"),
        crc: [0x00, 0x00, 0x00, 0x2A],
        data: vec![1, 2, 3],
    };
    assert_eq!(c.render().unwrap(), "Chunk type: IHDR, Data len: 3, CRC: 0x2A");
}

#[test]
fn render_text_chunk_with_invalid_utf8_payload_is_undisplayable() {
    let c = PngChunk {
        len: 2,
        typ: PngChunkType::new(*b"tEXt"),
        crc: [0, 0, 0, 0],
        data: vec![0xFF, 0xFE],
    };
    assert!(c.render().is_none());
}

#[test]
fn render_zero_checksum_keeps_prefix_and_one_digit() {
    let c = PngChunk {
        len: 0,
        typ: PngChunkType::new(*b"IEND"),
        crc: [0, 0, 0, 0],
        data: Vec::new(),
    };
    assert_eq!(c.render().unwrap(), "Chunk type: IEND, Data len: 0, CRC: 0x0");
}

#[test]
fn chunk_type_recognizes_text_tag() {
    assert!(PngChunkType::new(*b"tEXt").is_text());
    assert!(!PngChunkType::new(*b"IDAT").is_text());
    assert!(!PngChunkType::new(*b"TEXT").is_text());
}

#[test]
fn chunk_type_stores_bytes_verbatim() {
    let t = PngChunkType::new([0x00, 0x7F, 0xFF, 0x20]);
    assert_eq!(t.as_slice(), &[0x00, 0x7F, 0xFF, 0x20]);
}

#[test]
fn chunk_type_renders_as_characters() {
    assert_eq!(PngChunkType::new(*b"IHDR").render(), "IHDR");
}

#[test]
fn read_len_distinguishes_eof_from_truncation() {
    let mut empty = BytesReader::new(Vec::new());
    assert!(matches!(PngChunk::read_len(&mut empty), Ok(None)));
    let mut short = BytesReader::new(vec![1, 2, 3]);
    assert!(matches!(
        PngChunk::read_len(&mut short),
        Err(IoError::UnexpectedEof)
    ));
    let mut full = BytesReader::new(vec![0x12, 0x34, 0x56, 0x78]);
    assert!(matches!(
        PngChunk::read_len(&mut full),
        Ok(Some(0x12345678))
    ));
}

#[test]
fn bytes_reader_delivers_prefixes_in_order() {
    let mut r = BytesReader::new(vec![10, 20, 30, 40, 50]);
    assert_eq!(r.read(2).unwrap(), vec![10, 20]);
    assert_eq!(r.read(0).unwrap(), Vec::<u8>::new());
    assert_eq!(r.read(10).unwrap(), vec![30, 40, 50]);
    assert_eq!(r.read(10).unwrap(), Vec::<u8>::new());
}
