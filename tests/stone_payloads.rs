use boulder::cache::{IndexEntry, PayloadHeader, PayloadKind};
use boulder::header::{FileType, Header, V1Header};
use boulder::payload::{
    decode_frames, decode_index, decode_stone, encode_frames, encode_stone, payload_kind,
    Compression, Frame, FrameError, FrameHeader, PayloadType, StoneError,
};

fn frame(kind: PayloadType, body: &[u8]) -> Frame {
    Frame {
        header: FrameHeader {
            kind,
            compression: Compression::Plain,
            plain_size: body.len() as u64,
            stored_size: body.len() as u64,
            checksum: 0x0102030405060708,
        },
        body: body.to_vec(),
    }
}

fn same(a: &[Frame], b: &[Frame]) -> bool {
    a.len() == b.len() && a.iter().zip(b).all(|(x, y)| x.header == y.header && x.body == y.body)
}

#[test]
fn frame_header_layout() {
    let bytes = encode_frames(&vec![frame(PayloadType::Index, &[7, 8, 9])]);
    assert_eq!(bytes.len(), 26 + 3);
    assert_eq!(bytes[0], 4);
    assert_eq!(bytes[1], 1);
    assert_eq!(&bytes[2..10], &[0, 0, 0, 0, 0, 0, 0, 3]);
    assert_eq!(&bytes[10..18], &[0, 0, 0, 0, 0, 0, 0, 3]);
    assert_eq!(&bytes[18..26], &[1, 2, 3, 4, 5, 6, 7, 8]);
    assert_eq!(&bytes[26..], &[7, 8, 9]);
}

#[test]
fn stone_round_trip() {
    let header = Header::V1(V1Header { num_payloads: 3, file_type: FileType::Binary });
    let frames = vec![
        frame(PayloadType::Meta, b"meta"),
        frame(PayloadType::Content, &[]),
        frame(PayloadType::Index, &[1; 40]),
    ];
    let bytes = encode_stone(&header, &frames);
    assert_eq!(bytes.len(), 32 + 3 * 26 + 4 + 40);
    let (h, decoded) = decode_stone(&bytes).unwrap();
    assert_eq!(h, header);
    assert!(same(&decoded, &frames));
}

#[test]
fn empty_payload_sequence() {
    assert!(decode_frames(&[]).unwrap().is_empty());
    let header = Header::V1(V1Header::default());
    let (h, decoded) = decode_stone(&encode_stone(&header, &vec![])).unwrap();
    assert_eq!(h, header);
    assert!(decoded.is_empty());
}

#[test]
fn unknown_payload_kind_is_skipped() {
    let mut bytes = encode_frames(&vec![frame(PayloadType::Meta, &[1, 2]), frame(PayloadType::Layout, &[3])]);
    bytes[0] = 99;
    let decoded = decode_frames(&bytes).unwrap();
    assert!(same(&decoded, &[frame(PayloadType::Layout, &[3])]));
}

#[test]
fn unknown_compression() {
    let mut bytes = encode_frames(&vec![frame(PayloadType::Meta, &[1, 2])]);
    bytes[1] = 7;
    assert_eq!(decode_frames(&bytes).unwrap_err(), FrameError::UnknownCompression(7));
}

#[test]
fn truncated_frames() {
    let bytes = encode_frames(&vec![frame(PayloadType::Meta, &[1, 2, 3])]);
    assert_eq!(decode_frames(&bytes[..20]).unwrap_err(), FrameError::Truncated);
    assert_eq!(decode_frames(&bytes[..28]).unwrap_err(), FrameError::Truncated);
}

#[test]
fn stone_with_bad_header() {
    assert_eq!(
        decode_stone(&[0u8; 40]).unwrap_err(),
        StoneError::Header(boulder::header::DecodeError::InvalidMagic)
    );
}

fn record(start: u64, end: u64, digest: u128) -> Vec<u8> {
    let mut v = start.to_be_bytes().to_vec();
    v.extend_from_slice(&end.to_be_bytes());
    v.extend_from_slice(&digest.to_be_bytes());
    v
}

#[test]
fn index_records_decode() {
    let mut body = record(0, 4, 0xabcdef0123456789);
    body.extend(record(4, 10, u128::MAX - 1));
    let entries = decode_index(&body).unwrap();
    assert_eq!(entries.len(), 2);
    assert_eq!(entries[0], IndexEntry { start: 0, end: 4, digest: 0xabcdef0123456789 });
    assert_eq!(entries[1], IndexEntry { start: 4, end: 10, digest: u128::MAX - 1 });
    assert!(decode_index(&body[..40]).is_none());
    assert!(decode_index(&[]).unwrap().is_empty());
}

#[test]
fn payload_kinds_from_frames() {
    let content = frame(PayloadType::Content, &[1, 2, 3]).header;
    assert!(matches!(
        payload_kind(&content, &[]),
        Some(PayloadKind::Content(PayloadHeader { plain_size: 3, stored_size: 3 }))
    ));
    let index = frame(PayloadType::Index, &[]).header;
    match payload_kind(&index, &record(1, 2, 3)) {
        Some(PayloadKind::Index(v)) => assert_eq!(v, vec![IndexEntry { start: 1, end: 2, digest: 3 }]),
        other => panic!("unexpected {other:?}"),
    }
    assert!(payload_kind(&index, &[0; 5]).is_none());
    assert!(matches!(payload_kind(&frame(PayloadType::Meta, &[]).header, &[9]), Some(PayloadKind::Meta)));
}
