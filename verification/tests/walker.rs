use iff_parser::{ChunkError, Cursor, IFFParser, Tag};

/// Nonsense data to test basic functionality: a FORM container of 24 bytes
/// holding one TEST leaf.
const DATA: &[u8; 24] = &[
    // FORM chunk (24 bytes)
    0x46, 0x4f, 0x52, 0x4d, // "FORM" chunk typeid
    0x00, 0x00, 0x00, 0x10, // Chunk size (16 bytes)
    0x54, 0x45, 0x53, 0x54, // Subchunk typeid ("TEST")
    // TEST chunk (12 bytes)
    0x54, 0x45, 0x53, 0x54, // "TEST" chunk typid
    0x00, 0x00, 0x00, 0x04, // Chunk size (4 bytes)
    0x01, 0x02, 0x03, 0x04, // Test data
];

fn tag(name: &[u8; 4]) -> Tag {
    Tag::new(name[0], name[1], name[2], name[3])
}

fn chunk(name: &[u8; 4], size: u32, payload: &[u8]) -> Vec<u8> {
    let mut v: Vec<u8> = Vec::new();
    v.extend_from_slice(name);
    v.extend_from_slice(&size.to_be_bytes());
    v.extend_from_slice(payload);
    v
}

#[test]
fn iff() {
    let mut p = IFFParser::cursor(DATA.to_vec());
    while p.position() < p.len() {
        let h = p.header().unwrap();
        assert_eq!(p.depth(), 0);
        let name = [h.typeid.b0, h.typeid.b1, h.typeid.b2, h.typeid.b3];
        match &name {
            b"FORM" => p.skip(h.size as usize).unwrap(),
            b"TEST" => p.skip(h.size as usize).unwrap(),
            _ => panic!("unexpected chunk tag"),
        }
    }
    assert_eq!(p.position(), 24);
}

#[test]
fn single_container_with_one_leaf() {
    let mut p = IFFParser::cursor(DATA.to_vec());
    let end = p.parse().unwrap();
    assert_eq!(end, 24);
    assert_eq!(p.position(), 24);
    let recs = p.records();
    assert_eq!(recs.len(), 2);
    assert_eq!(recs[0].offset, 0);
    assert_eq!(recs[0].depth, 0);
    assert_eq!(recs[0].typeid, tag(b"FORM"));
    assert_eq!(recs[0].size, 16);
    assert!(recs[0].container);
    assert_eq!(recs[1].offset, 12);
    assert_eq!(recs[1].depth, 1);
    assert_eq!(recs[1].typeid, tag(b"TEST"));
    assert_eq!(recs[1].size, 4);
    assert!(!recs[1].container);
}

#[test]
fn small_chunk_is_a_leaf_by_definition() {
    // declared size 4, under the 12-byte floor: no recursion is attempted
    let data = chunk(b"ABCD", 4, &[0x54, 0x45, 0x53, 0x54]);
    let mut p = IFFParser::cursor(data);
    let end = p.parse().unwrap();
    assert_eq!(end, 12);
    let recs = p.records();
    assert_eq!(recs.len(), 1);
    assert!(!recs[0].container);
    assert_eq!(recs[0].size, 4);
}

#[test]
fn odd_size_consumes_a_padding_byte() {
    let data = chunk(b"ABCD", 5, &[1, 2, 3, 4, 5, 0]);
    let mut p = IFFParser::cursor(data);
    let h = p.header().unwrap();
    let consumed = p.heuristic(&h).unwrap();
    assert_eq!(consumed, 6);
    assert_eq!(p.position(), 14);
}

#[test]
fn odd_size_through_parse() {
    let data = chunk(b"ABCD", 5, &[1, 2, 3, 4, 5, 0]);
    let mut p = IFFParser::cursor(data);
    let end = p.parse().unwrap();
    assert_eq!(end, 14);
    assert_eq!(p.records().len(), 1);
}

#[test]
fn oversized_nested_header_rejects_the_guess() {
    // payload starts with two plausible tags, but the nested size (8) does
    // not leave room to spare inside the parent payload: 8 >= 16 - 8
    let mut payload: Vec<u8> = Vec::new();
    payload.extend_from_slice(b"TEST");
    payload.extend_from_slice(b"TEST");
    payload.extend_from_slice(&8u32.to_be_bytes());
    payload.extend_from_slice(&[0, 0, 0, 0]);
    let data = chunk(b"FORM", 16, &payload);
    let mut p = IFFParser::cursor(data);
    let end = p.parse().unwrap();
    assert_eq!(end, 24);
    let recs = p.records();
    assert_eq!(recs.len(), 1);
    assert!(!recs[0].container);
}

#[test]
fn failed_descent_rewinds_to_the_leaf_interpretation() {
    // the lookahead passes (nested size 5 < 16 - 8), but the child's extent
    // (5 + 8 = 13 bytes) overruns the child budget of 12: the subtree is
    // discarded and the chunk is reported as a leaf, with no visible error
    let mut payload: Vec<u8> = Vec::new();
    payload.extend_from_slice(b"AAAA");
    payload.extend_from_slice(b"BBBB");
    payload.extend_from_slice(&5u32.to_be_bytes());
    payload.extend_from_slice(&[9, 9, 9, 9]);
    let data = chunk(b"FORM", 16, &payload);
    let mut p = IFFParser::cursor(data);
    let end = p.parse().unwrap();
    assert_eq!(end, 24);
    let recs = p.records();
    assert_eq!(recs.len(), 1);
    assert_eq!(recs[0].typeid, tag(b"FORM"));
    assert!(!recs[0].container);
    assert_eq!(p.position(), 24);
}

#[test]
fn nested_containers_report_increasing_depths() {
    let inner = chunk(b"TEST", 4, &[1, 2, 3, 4]);
    let mut mid_payload: Vec<u8> = Vec::new();
    mid_payload.extend_from_slice(b"AIFF");
    mid_payload.extend_from_slice(&inner);
    let mid = chunk(b"FORM", 16, &mid_payload);
    let mut outer_payload: Vec<u8> = Vec::new();
    outer_payload.extend_from_slice(b"LIST");
    outer_payload.extend_from_slice(&mid);
    let data = chunk(b"FORM", 28, &outer_payload);
    let mut p = IFFParser::cursor(data);
    let end = p.parse().unwrap();
    assert_eq!(end, 36);
    assert_eq!(p.depth(), 0);
    let recs = p.records();
    assert_eq!(recs.len(), 3);
    assert_eq!(recs[0].depth, 0);
    assert!(recs[0].container);
    assert_eq!(recs[1].depth, 1);
    assert_eq!(recs[1].offset, 12);
    assert!(recs[1].container);
    assert_eq!(recs[2].depth, 2);
    assert_eq!(recs[2].offset, 24);
    assert!(!recs[2].container);
}

#[test]
fn empty_input_parses_to_nothing() {
    let mut p = IFFParser::cursor(Vec::new());
    let end = p.parse().unwrap();
    assert_eq!(end, 0);
    assert!(p.records().is_empty());
}

#[test]
fn short_header_is_truncated_input() {
    let mut p = IFFParser::cursor(vec![0x46, 0x4f, 0x52, 0x4d, 0x00]);
    assert_eq!(p.parse(), Err(ChunkError::TruncatedInput));
}

#[test]
fn declared_size_past_the_end_is_truncated_input() {
    // a leaf whose declared payload extends past the end of the source is
    // fatal at the top level
    let data = chunk(b"FORM", 100, &[0, 0, 0, 0, 0, 0, 0, 0, 0, 0, 0, 0]);
    let mut p = IFFParser::cursor(data);
    assert_eq!(p.parse(), Err(ChunkError::TruncatedInput));
    // the chunk was still visited before the skip failed
    assert_eq!(p.records().len(), 1);
}

#[test]
fn tiny_budget_is_a_structural_overrun() {
    let mut p = IFFParser::cursor(DATA.to_vec());
    assert_eq!(p.subchunks(4), Err(ChunkError::StructuralOverrun));
}

#[test]
fn expect_matches_and_mismatches() {
    let mut p = IFFParser::cursor(DATA.to_vec());
    let h = p.expect(tag(b"FORM")).unwrap();
    assert_eq!(h.size, 16);
    let mut q = IFFParser::cursor(DATA.to_vec());
    assert_eq!(q.expect(tag(b"LIST")), Err(ChunkError::UnexpectedTag));
}

#[test]
fn rewind_before_the_start_is_an_io_failure() {
    let mut c = Cursor::new(vec![1, 2, 3]);
    assert_eq!(c.rewind(1), Err(ChunkError::IoFailure));
    c.skip(2).unwrap();
    c.rewind(1).unwrap();
    assert_eq!(c.position(), 1);
}

#[test]
fn tag_validity_is_printable_ascii() {
    assert!(tag(b"FORM").is_valid());
    assert!(tag(b"AB  ").is_valid());
    assert!(Tag::new(0x20, 0x7e, 0x41, 0x39).is_valid());
    assert!(!Tag::new(0x1f, 0x41, 0x41, 0x41).is_valid());
    assert!(!Tag::new(0x41, 0x41, 0x41, 0x7f).is_valid());
    assert!(!Tag::new(0x00, 0x00, 0x00, 0x04).is_valid());
}

#[test]
fn detection_verdict_is_repeatable() {
    let t = Tag::new(0x46, 0x4f, 0x52, 0x4d);
    let first = t.is_valid();
    let second = t.is_valid();
    assert_eq!(first, second);
    let u = Tag::new(0x00, 0x4f, 0x52, 0x4d);
    assert_eq!(u.is_valid(), u.is_valid());
    // the walk itself is equally a pure function of the bytes
    let mut p = IFFParser::cursor(DATA.to_vec());
    let mut q = IFFParser::cursor(DATA.to_vec());
    assert_eq!(p.parse(), q.parse());
    assert_eq!(p.records(), q.records());
}

#[test]
fn be32_is_read_big_endian() {
    let mut c = Cursor::new(vec![0x12, 0x34, 0x56, 0x78]);
    assert_eq!(c.read_be_u32().unwrap(), 0x1234_5678);
    assert_eq!(c.position(), 4);
    assert_eq!(c.read_be_u32(), Err(ChunkError::TruncatedInput));
}
