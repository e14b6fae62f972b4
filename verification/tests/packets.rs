use p2pchain::protocol::header::{ContentType, P2ProtHeader};
use p2pchain::protocol::header_ext::HeaderExt;
use p2pchain::protocol::proof_of_work::PoWExt;
use p2pchain::protocol::P2Protocol;
use sha2::{Digest, Sha256};

#[test]
fn packet_header_records_payload() {
    let payload = vec![10u8, 20, 30, 40, 50];
    let p = P2Protocol::new(ContentType::Bin, payload.clone());
    let digest = Sha256::digest(&payload);
    let expected = u32::from_le_bytes([digest[0], digest[1], digest[2], digest[3]]);
    assert_eq!(p.header.checksum, expected);
    assert_eq!(p.header.size, 5);
    assert_eq!(p.header.content_type, ContentType::Bin);
    assert_eq!(p.header.session_id, 0);
    assert_eq!(p.header.magic, 0xE9BB);
    assert_eq!(p.payload, payload);
    assert!(p.header_exts.is_empty());
}

#[test]
fn packet_for_peer_session() {
    let p = P2Protocol::new_with_peer(ContentType::HandShake, vec![1], 99);
    assert_eq!(p.header.session_id, 99);
    assert_eq!(p.header.content_type, ContentType::HandShake);
    assert_eq!(p.header.size, 1);
}

#[test]
fn packet_bytes_are_header_then_payload() {
    let payload = b"payload bytes".to_vec();
    let p = P2Protocol::new_with_peer(ContentType::Json, payload.clone(), 7);
    let bytes = p.serialize();
    assert_eq!(bytes.len(), 32 + payload.len());
    assert_eq!(&bytes[..32], &p.header.to_bytes()[..]);
    assert_eq!(&bytes[32..], &payload[..]);
    let header = P2ProtHeader::from_bytes(&bytes).unwrap();
    assert_eq!(header, p.header);
    assert_eq!(&bytes[32..32 + header.size], &payload[..]);
}

#[test]
fn empty_payload_checksum() {
    let p = P2Protocol::new(ContentType::Bin, vec![]);
    let digest = Sha256::digest([]);
    assert_eq!(p.header.checksum, u32::from_le_bytes([digest[0], digest[1], digest[2], digest[3]]));
    assert_eq!(p.header.size, 0);
}

#[test]
fn adding_extensions_counts_them() {
    let mut p = P2Protocol::new(ContentType::Bin, vec![1, 2]);
    let ext = HeaderExt::PoW(PoWExt::from_parts(1, 2, 3, 4));
    assert_eq!(ext.discriminant(), 0);
    p.add_extention(ext);
    assert_eq!(p.header.header_ext_len, 1);
    p.add_extention(HeaderExt::PoW(PoWExt::from_parts(1, 1, 1, 1)));
    assert_eq!(p.header.header_ext_len, 2);
    assert_eq!(p.header_exts.len(), 2);
    assert_eq!(p.header_exts[0], ext);
    assert_eq!(p.payload, vec![1, 2]);
}

#[test]
fn a_stream_of_packets_reads_back_in_order() {
    let a = P2Protocol::new_with_peer(ContentType::Bin, vec![1, 2, 3], 7);
    let b = P2Protocol::new_with_peer(ContentType::Json, vec![9; 5], 8);
    let mut stream = a.serialize();
    stream.extend(b.serialize());
    let h1 = P2ProtHeader::from_bytes(&stream).unwrap();
    assert_eq!(h1, a.header);
    let end1 = 32 + h1.size;
    assert_eq!(&stream[32..end1], &[1, 2, 3]);
    let h2 = P2ProtHeader::from_bytes(&stream[end1..]).unwrap();
    assert_eq!(h2, b.header);
    assert_eq!(&stream[end1 + 32..], &[9; 5]);
}
