use std::collections::VecDeque;

use png_chunks::multi_reader::MultiReader;
use png_chunks::png_chunk::PngChunk;
use png_chunks::source::{ByteSource, BytesReader};

fn reader_over(parts: &[&[u8]]) -> MultiReader<BytesReader> {
    let mut sources = VecDeque::new();
    for part in parts {
        sources.push_back(BytesReader::new(part.to_vec()));
    }
    MultiReader::new(sources)
}

fn drain(r: &mut impl ByteSource) -> Vec<u8> {
    let mut all = Vec::new();
    loop {
        let got = r.read(3).unwrap();
        if got.is_empty() {
            return all;
        }
        all.extend_from_slice(&got);
    }
}

#[test]
fn multi_reader_concatenates_sources_in_order() {
    let mut r = reader_over(&[b"AB", b"", b"CD"]);
    assert_eq!(drain(&mut r), b"ABCD".to_vec());
    // Once exhausted, every further read yields zero bytes.
    assert_eq!(r.read(8).unwrap(), Vec::<u8>::new());
    assert_eq!(r.read(1).unwrap(), Vec::<u8>::new());
}

#[test]
fn multi_reader_skips_leading_empty_sources() {
    let mut r = reader_over(&[b"", b"", b"xyz"]);
    assert_eq!(r.read(10).unwrap(), b"xyz".to_vec());
}

#[test]
fn multi_reader_of_no_sources_is_exhausted() {
    let mut r = reader_over(&[]);
    assert_eq!(r.read(5).unwrap(), Vec::<u8>::new());
}

#[test]
fn multi_reader_single_source_passthrough() {
    let mut direct = BytesReader::new(b"stream".to_vec());
    let mut wrapped = reader_over(&[b"stream"]);
    loop {
        let a = direct.read(4).unwrap();
        let b = wrapped.read(4).unwrap();
        assert_eq!(a, b);
        if a.is_empty() {
            break;
        }
    }
}

#[test]
fn multi_reader_never_crosses_a_source_in_one_read() {
    let mut r = reader_over(&[b"AB", b"CD"]);
    // The first source still has bytes, so a large read stops at its end.
    assert_eq!(r.read(10).unwrap(), b"AB".to_vec());
    assert_eq!(r.read(10).unwrap(), b"CD".to_vec());
}

#[test]
fn chunk_parses_across_source_boundaries() {
    // One chunk split over several sources: length, tag, payload, checksum
    // arrive in pieces, as a signature prefix plus content stream would.
    let mut all = Vec::new();
    all.extend_from_slice(&[0x00, 0x00, 0x00, 0x02]);
    all.extend_from_slice(b"tEXt");
    all.extend_from_slice(b"hi");
    all.extend_from_slice(&[5, 6, 7, 8]);
    let (a, rest) = all.split_at(3);
    let (b, c) = rest.split_at(6);
    let mut r = reader_over(&[a, b, c]);
    let chunk = PngChunk::from_reader(&mut r).unwrap().unwrap();
    assert_eq!(chunk.len, 2);
    assert_eq!(chunk.data, b"hi".to_vec());
    assert_eq!(chunk.crc, [5, 6, 7, 8]);
    assert!(matches!(PngChunk::from_reader(&mut r), Ok(None)));
}
