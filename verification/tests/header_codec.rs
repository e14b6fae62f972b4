use p2pchain::protocol::header::{
    ContentType, Flags, HeaderError, P2ProtHeader, HEADER_LEN, HEADER_MAGIC,
};

fn sample_header() -> P2ProtHeader {
    let mut h = P2ProtHeader::default();
    h.version = 0x0102;
    h.flags = 0x0005;
    h.content_type = ContentType::HandShake;
    h.header_ext_len = 0x0a0b0c0d;
    h.checksum = 0xdeadbeef;
    h.size = 300;
    h.session_id = 0x1122334455667788;
    h
}

#[test]
fn default_header_fields() {
    let h = P2ProtHeader::default();
    assert_eq!(h.magic, 0xE9BB);
    assert_eq!(h.magic, HEADER_MAGIC);
    assert_eq!(h.version, 0);
    assert_eq!(h.flags, 0);
    assert_eq!(h.content_type, ContentType::Bin);
    assert_eq!(h.header_ext_len, 0);
    assert_eq!(h.checksum, 0);
    assert_eq!(h.size, 0);
    assert_eq!(h.session_id, 0);
}

#[test]
fn header_bytes_layout() {
    let bytes = sample_header().to_bytes();
    assert_eq!(bytes.len(), HEADER_LEN);
    assert_eq!(
        bytes,
        vec![
            0xBB, 0xE9, 0x02, 0x01, 0x05, 0x00, 0x02, 0x00, 0x0d, 0x0c, 0x0b, 0x0a, 0xef, 0xbe,
            0xad, 0xde, 0x2c, 0x01, 0, 0, 0, 0, 0, 0, 0x88, 0x77, 0x66, 0x55, 0x44, 0x33, 0x22,
            0x11
        ]
    );
}

#[test]
fn header_bytes_match_bincode_fixed_int_layout() {
    let h = sample_header();
    let tuple = (
        h.magic,
        h.version,
        h.flags,
        h.content_type.code(),
        h.header_ext_len,
        h.checksum,
        h.size as u64,
        h.session_id,
    );
    let expected =
        bincode::encode_to_vec(tuple, bincode::config::standard().with_fixed_int_encoding())
            .unwrap();
    assert_eq!(h.to_bytes(), expected);
}

#[test]
fn header_roundtrip() {
    let h = sample_header();
    assert_eq!(P2ProtHeader::from_bytes(&h.to_bytes()), Ok(h));
    let d = P2ProtHeader::default();
    assert_eq!(P2ProtHeader::from_bytes(&d.to_bytes()), Ok(d));
}

#[test]
fn header_ignores_trailing_bytes() {
    let h = sample_header();
    let mut bytes = h.to_bytes();
    bytes.extend_from_slice(&[1, 2, 3, 4, 5, 6, 7, 8]);
    assert_eq!(P2ProtHeader::from_bytes(&bytes), Ok(h));
}

#[test]
fn header_short_input() {
    let bytes = sample_header().to_bytes();
    assert_eq!(P2ProtHeader::from_bytes(&bytes[..31]), Err(HeaderError::UnexpectedEnd));
    assert_eq!(P2ProtHeader::from_bytes(&bytes[..5]), Err(HeaderError::UnexpectedEnd));
    assert_eq!(P2ProtHeader::from_bytes(&[]), Err(HeaderError::UnexpectedEnd));
}

#[test]
fn header_invalid_content_type() {
    let mut bytes = sample_header().to_bytes();
    bytes[6] = 7;
    bytes[7] = 0;
    assert_eq!(P2ProtHeader::from_bytes(&bytes), Err(HeaderError::InvalidContentType(7)));
    // the content type is read before the input is found short
    assert_eq!(
        P2ProtHeader::from_bytes(&bytes[..10]),
        Err(HeaderError::InvalidContentType(7))
    );
}

#[test]
fn header_unknown_content_type_code() {
    let mut h = sample_header();
    h.content_type = ContentType::Unknown;
    let bytes = h.to_bytes();
    assert_eq!(bytes[6], 0xff);
    assert_eq!(bytes[7], 0x00);
    assert_eq!(P2ProtHeader::from_bytes(&bytes), Ok(h));
}

#[test]
fn content_type_codes() {
    assert_eq!(ContentType::Bin.code(), 0);
    assert_eq!(ContentType::Json.code(), 1);
    assert_eq!(ContentType::HandShake.code(), 2);
    assert_eq!(ContentType::Unknown.code(), 0xff);
    for ct in [ContentType::Bin, ContentType::Json, ContentType::HandShake, ContentType::Unknown] {
        assert_eq!(ContentType::from_code(ct.code()), Some(ct));
    }
    assert_eq!(ContentType::from_code(3), None);
    assert_eq!(ContentType::from_code(0x100), None);
}

#[test]
fn flags_set_and_check() {
    let mut flags: u16 = 0;
    assert!(!Flags::Encryption.check_in(flags));
    Flags::set_flag(&mut flags, Flags::Encryption);
    assert_eq!(flags, 0x2);
    assert!(Flags::Encryption.check_in(flags));
    assert!(!Flags::Partial.check_in(flags));
    assert!(!Flags::ProofOfWork.check_in(flags));
    Flags::set_flag(&mut flags, Flags::ProofOfWork);
    assert_eq!(flags, 0x6);
    Flags::set_flag(&mut flags, Flags::RESERVED);
    assert_eq!(flags, 0xE);
    assert!(Flags::RESERVED.check_in(flags));
    assert!(Flags::Partial.check_in(0x1));
    assert_eq!(Flags::Partial.bit(), 1);
}
