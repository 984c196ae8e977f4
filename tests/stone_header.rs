use boulder::header::{
    u32_from_be, u32_to_be, AgnosticHeader, DecodeError, FileType, Header, V1DecodeError,
    V1Header, Version,
};

#[test]
fn header_round_trip() {
    let header = Header::V1(V1Header::default());
    let bytes = header.encode().to_bytes();
    assert_eq!(bytes.len(), 32);
    assert_eq!(&bytes[0..4], &[0x00, 0x6d, 0x6f, 0x73]);
    assert_eq!(&bytes[28..32], &[0x00, 0x00, 0x00, 0x01]);
    assert_eq!(Header::decode(&bytes), Ok(header));
}

#[test]
fn header_round_trip_with_payloads_and_type() {
    let header = Header::V1(V1Header { num_payloads: 0x1234, file_type: FileType::Binary });
    let mut bytes = header.encode().to_bytes();
    assert_eq!(&bytes[4..6], &[0x12, 0x34]);
    assert_eq!(bytes[27], 1);
    bytes.extend_from_slice(&[9, 9, 9]);
    assert_eq!(Header::decode(&bytes), Ok(header));
}

#[test]
fn header_version_is_v1() {
    assert_eq!(Header::V1(V1Header::default()).version(), Version::V1);
    assert_eq!(Version::V1.number(), 1);
}

#[test]
fn invalid_magic() {
    assert_eq!(Header::decode(&[0u8; 32]), Err(DecodeError::InvalidMagic));
}

#[test]
fn unknown_version() {
    let mut bytes = vec![0x00, 0x6d, 0x6f, 0x73];
    bytes.extend_from_slice(&[0u8; 24]);
    bytes.extend_from_slice(&[0, 0, 0, 9]);
    assert_eq!(Header::decode(&bytes), Err(DecodeError::UnknownVersion(9)));
}

#[test]
fn short_header() {
    assert_eq!(Header::decode(&[0u8; 10]), Err(DecodeError::NotEnoughBytes));
    assert_eq!(Header::decode(&[]), Err(DecodeError::NotEnoughBytes));
    assert!(matches!(AgnosticHeader::decode(&[0u8; 31]), Err(DecodeError::NotEnoughBytes)));
}

#[test]
fn corrupt_v1_data() {
    let mut bytes = Header::V1(V1Header::default()).encode().to_bytes();
    bytes[10] = 0xff;
    assert_eq!(Header::decode(&bytes), Err(DecodeError::V1(V1DecodeError::Corrupt)));
}

#[test]
fn unknown_file_type() {
    let mut bytes = Header::V1(V1Header::default()).encode().to_bytes();
    bytes[27] = 7;
    assert_eq!(Header::decode(&bytes), Err(DecodeError::V1(V1DecodeError::UnknownFileType(7))));
}

#[test]
fn agnostic_header_splits_fields() {
    let bytes: Vec<u8> = (0u8..40).collect();
    let h = AgnosticHeader::decode(&bytes).unwrap();
    assert_eq!(h.magic, [0, 1, 2, 3]);
    assert_eq!(h.data[0], 4);
    assert_eq!(h.data[23], 27);
    assert_eq!(h.version, [28, 29, 30, 31]);
    assert_eq!(h.to_bytes(), bytes[..32].to_vec());
}

#[test]
fn big_endian_words() {
    assert_eq!(u32_to_be(0x006d6f73), [0x00, 0x6d, 0x6f, 0x73]);
    assert_eq!(u32_from_be([0x12, 0x34, 0x56, 0x78]), 0x12345678);
    assert_eq!(u32_from_be(u32_to_be(u32::MAX)), u32::MAX);
}

#[test]
fn decode_error_messages() {
    assert_eq!(DecodeError::InvalidMagic.message(), "Invalid magic");
    assert_eq!(DecodeError::NotEnoughBytes.message(), "Header must be 32 bytes long");
    assert_eq!(DecodeError::UnknownVersion(9).message(), "Unknown version: 9");
}
