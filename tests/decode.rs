use riff::{Chunk, ChunkData, ChunkError, ChunkId, ChunkRiff, Riff};

fn header(tag: &[u8; 4], len: u32) -> Vec<u8> {
    let mut v = tag.to_vec();
    v.extend_from_slice(&len.to_le_bytes());
    v
}

fn child(tag: &[u8; 4], payload: &[u8]) -> Vec<u8> {
    let mut v = header(tag, payload.len() as u32);
    v.extend_from_slice(payload);
    if payload.len() % 2 == 1 {
        v.push(0);
    }
    v
}

fn container(children: &[Vec<u8>]) -> Vec<u8> {
    let mut body = b"CdIx".to_vec();
    for c in children {
        body.extend_from_slice(c);
    }
    let mut v = header(b"RIFF", body.len() as u32);
    v.extend_from_slice(&body);
    v
}

fn root_children(r: &Riff) -> &Vec<Chunk> {
    match &r.chunk {
        Some(Chunk { id: ChunkId::Riff, data: ChunkData::RiffData(riff) }) => {
            assert_eq!(&riff.file_type, b"CdIx");
            &riff.data
        }
        _ => panic!("root is not a container"),
    }
}

fn leaf(c: &Chunk) -> &Vec<u8> {
    match &c.data {
        ChunkData::StreamData(s) => &s.data,
        _ => panic!("child is not a leaf"),
    }
}

#[test]
fn match_id_resolves_every_recognized_tag() {
    let cases: [(&[u8; 4], ChunkId); 9] = [
        (b"meta", ChunkId::Meta),
        (b"stri", ChunkId::Stri),
        (b"symb", ChunkId::Symb),
        (b"refs", ChunkId::Refs),
        (b"rela", ChunkId::Rela),
        (b"srcs", ChunkId::Srcs),
        (b"cmdl", ChunkId::Cmdl),
        (b"RIFF", ChunkId::Riff),
        (b"CdIx", ChunkId::CdIx),
    ];
    for (tag, id) in cases.iter() {
        assert_eq!(ChunkId::match_id(tag), Some(*id));
    }
}

#[test]
fn match_id_is_case_sensitive_and_rejects_unknown_tags() {
    assert_eq!(ChunkId::match_id(b"riff"), None);
    assert_eq!(ChunkId::match_id(b"META"), None);
    assert_eq!(ChunkId::match_id(b"WAVE"), None);
    assert_eq!(ChunkId::match_id(b"cdix"), None);
}

#[test]
fn get_usize_is_little_endian() {
    assert_eq!(Riff::get_usize([0x01, 0x00, 0x00, 0x00]), 1);
    assert_eq!(Riff::get_usize([0x00, 0x00, 0x00, 0x01]), 0x0100_0000);
    assert_eq!(Riff::get_usize([0x78, 0x56, 0x34, 0x12]), 0x1234_5678);
    assert_eq!(Riff::get_usize([0xff, 0xff, 0xff, 0xff]), 0xffff_ffff);
}

#[test]
fn extract_data_on_short_buffers() {
    let full = header(b"stri", 5);
    for n in 0..4 {
        assert_eq!(Riff::extract_data(&full[..n]).unwrap_err(), ChunkError::CorruptId);
    }
    for n in 4..8 {
        assert_eq!(Riff::extract_data(&full[..n]).unwrap_err(), ChunkError::BadHeader);
    }
}

#[test]
fn extract_data_reads_header_and_keeps_remainder() {
    let mut buf = header(b"symb", 1);
    buf.extend_from_slice(&[9, 8, 7]);
    let (id, len, rest) = Riff::extract_data(&buf).unwrap();
    assert_eq!(id, ChunkId::Symb);
    assert_eq!(len, 1);
    assert_eq!(rest, &[9, 8, 7]);
}

#[test]
fn extract_data_reports_unknown_tag() {
    let buf = header(b"junk", 0);
    assert_eq!(Riff::extract_data(&buf).unwrap_err(), ChunkError::UnknownTag);
}

#[test]
fn parse_rejects_wrong_signature() {
    let mut buf = header(b"RIFF", 4);
    buf.extend_from_slice(b"WAVE");
    assert_eq!(Riff::parse(&buf).unwrap_err(), ChunkError::IncompatibleFile);
    let mut other = header(b"RIFF", 1000);
    other.extend_from_slice(b"CdIX");
    other.extend_from_slice(&child(b"stri", b"ab"));
    assert_eq!(Riff::parse(&other).unwrap_err(), ChunkError::IncompatibleFile);
}

#[test]
fn parse_rejects_missing_signature() {
    let mut buf = header(b"RIFF", 2);
    buf.extend_from_slice(b"Cd");
    assert_eq!(Riff::parse(&buf).unwrap_err(), ChunkError::IncompatibleFile);
}

#[test]
fn parse_single_odd_child_with_pad() {
    let buf = container(&[child(b"stri", &[0x41, 0x42, 0x43, 0x44, 0x45])]);
    assert_eq!(buf.len(), 8 + 4 + 8 + 6);
    let tree = Riff::parse(&buf).unwrap();
    let kids = root_children(&tree);
    assert_eq!(kids.len(), 1);
    assert_eq!(kids[0].id, ChunkId::Stri);
    assert_eq!(leaf(&kids[0]).len(), 5);
    assert_eq!(leaf(&kids[0]), &vec![0x41, 0x42, 0x43, 0x44, 0x45]);
}

#[test]
fn parse_odd_child_advances_past_pad() {
    let buf = container(&[child(b"refs", &[1, 2, 3]), child(b"cmdl", &[4, 5])]);
    let second = 8 + 4 + 8 + 4;
    assert_eq!(&buf[second..second + 4], b"cmdl");
    let tree = Riff::parse(&buf).unwrap();
    let kids = root_children(&tree);
    assert_eq!(kids.len(), 2);
    assert_eq!(kids[0].id, ChunkId::Refs);
    assert_eq!(leaf(&kids[0]), &vec![1, 2, 3]);
    assert_eq!(kids[1].id, ChunkId::Cmdl);
    assert_eq!(leaf(&kids[1]), &vec![4, 5]);
}

#[test]
fn parse_keeps_document_order_and_all_tags() {
    let tags: [&[u8; 4]; 9] = [b"meta", b"stri", b"symb", b"refs", b"rela", b"srcs", b"cmdl", b"RIFF", b"CdIx"];
    let ids = [
        ChunkId::Meta,
        ChunkId::Stri,
        ChunkId::Symb,
        ChunkId::Refs,
        ChunkId::Rela,
        ChunkId::Srcs,
        ChunkId::Cmdl,
        ChunkId::Riff,
        ChunkId::CdIx,
    ];
    let children: Vec<Vec<u8>> = tags.iter().enumerate().map(|(i, t)| child(t, &vec![i as u8; i])).collect();
    let tree = Riff::parse(&container(&children)).unwrap();
    let kids = root_children(&tree);
    assert_eq!(kids.len(), 9);
    for i in 0..9 {
        assert_eq!(kids[i].id, ids[i]);
        assert_eq!(leaf(&kids[i]), &vec![i as u8; i]);
    }
}

#[test]
fn parse_round_trips_child_byte_ranges() {
    let children = vec![child(b"meta", &[1, 2, 3, 4]), child(b"stri", b"hello"), child(b"srcs", &[]), child(b"rela", &[7])];
    let buf = container(&children);
    let tree = Riff::parse(&buf).unwrap();
    let kids = root_children(&tree);
    assert_eq!(kids.len(), children.len());
    let tags: [&[u8; 4]; 4] = [b"meta", b"stri", b"srcs", b"rela"];
    let mut offset = 12;
    for (i, k) in kids.iter().enumerate() {
        let payload = leaf(k);
        let mut written = tags[i].to_vec();
        written.extend_from_slice(&(payload.len() as u32).to_le_bytes());
        written.extend_from_slice(payload);
        assert_eq!(&buf[offset..offset + written.len()], &written[..]);
        offset += 8 + payload.len() + payload.len() % 2;
    }
    assert_eq!(offset, buf.len());
}

#[test]
fn parse_empty_container_has_no_children() {
    let tree = Riff::parse(&container(&[])).unwrap();
    assert_eq!(root_children(&tree).len(), 0);
}

#[test]
fn parse_trailing_partial_header_fails() {
    let mut buf = container(&[child(b"stri", &[1, 2])]);
    buf.extend_from_slice(b"st");
    assert_eq!(Riff::parse(&buf).unwrap_err(), ChunkError::CorruptId);
    let mut buf2 = container(&[child(b"stri", &[1, 2])]);
    buf2.extend_from_slice(b"stri\x01");
    assert_eq!(Riff::parse(&buf2).unwrap_err(), ChunkError::BadHeader);
}

#[test]
fn parse_rejects_non_container_root() {
    let buf = child(b"meta", &[1, 2, 3, 4]);
    assert_eq!(Riff::parse(&buf).unwrap_err(), ChunkError::NotRiffFile);
}

#[test]
fn parse_rejects_unknown_child_tag() {
    let buf = container(&[child(b"stri", &[1]), child(b"zzzz", &[2])]);
    assert_eq!(Riff::parse(&buf).unwrap_err(), ChunkError::UnknownTag);
}

#[test]
fn parse_rejects_unknown_root_tag() {
    let buf = child(b"WAVE", &[]);
    assert_eq!(Riff::parse(&buf).unwrap_err(), ChunkError::UnknownTag);
}

#[test]
fn parse_rejects_truncated_payload() {
    let mut buf = container(&[]);
    buf.extend_from_slice(&header(b"stri", 10));
    buf.extend_from_slice(&[1, 2, 3]);
    assert_eq!(Riff::parse(&buf).unwrap_err(), ChunkError::TruncatedPayload);
}

#[test]
fn parse_short_buffers() {
    assert_eq!(Riff::parse(&[]).unwrap_err(), ChunkError::CorruptId);
    assert_eq!(Riff::parse(b"RIF").unwrap_err(), ChunkError::CorruptId);
    assert_eq!(Riff::parse(b"RIFF\x04").unwrap_err(), ChunkError::BadHeader);
}

#[test]
fn parse_chunk_returns_root_container() {
    let buf = container(&[child(b"symb", &[5, 6])]);
    let c = Riff::parse_chunk(&buf).unwrap();
    assert_eq!(c.id, ChunkId::Riff);
    match c.data {
        ChunkData::RiffData(r) => assert_eq!(r.data.len(), 1),
        _ => panic!("root is not a container"),
    }
}

#[test]
fn parse_riff_on_payload() {
    let mut payload = b"CdIx".to_vec();
    payload.extend_from_slice(&child(b"cmdl", b"abc"));
    match Riff::parse_riff(&payload).unwrap() {
        ChunkData::RiffData(r) => {
            assert_eq!(r.data.len(), 1);
            assert_eq!(r.data[0].id, ChunkId::Cmdl);
            assert_eq!(leaf(&r.data[0]), &b"abc".to_vec());
        }
        _ => panic!("not a container"),
    }
    assert_eq!(Riff::parse_riff(b"RIFF").unwrap_err(), ChunkError::IncompatibleFile);
}

#[test]
fn parse_generic_takes_declared_length() {
    match Riff::parse_generic(&[1, 2, 3, 4], 3).unwrap() {
        ChunkData::StreamData(s) => assert_eq!(s.data, vec![1, 2, 3]),
        _ => panic!("not a leaf"),
    }
    match Riff::parse_generic(&[1, 2], 0).unwrap() {
        ChunkData::StreamData(s) => assert!(s.data.is_empty()),
        _ => panic!("not a leaf"),
    }
    assert_eq!(Riff::parse_generic(&[1, 2], 3).unwrap_err(), ChunkError::TruncatedPayload);
}

#[test]
fn defaults_are_empty() {
    assert_eq!(ChunkId::default(), ChunkId::NoId);
    let c = Chunk::default();
    assert_eq!(c.id, ChunkId::NoId);
    assert!(matches!(c.data, ChunkData::NoData));
    let r = ChunkRiff::default();
    assert_eq!(r.file_type, [0, 0, 0, 0]);
    assert!(r.data.is_empty());
    assert!(matches!(ChunkData::default(), ChunkData::NoData));
}
