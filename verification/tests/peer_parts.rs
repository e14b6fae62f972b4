use p2pchain::address::SocketAddress;
use p2pchain::errors::PeerParseError;
use p2pchain::keys::PublicKey;
use p2pchain::peers::{split_peer_uri, Peer, PeerOptions};
use p2pchain::utils::Bitmask;
use sha2::{Digest, Sha256};

#[test]
fn serving_option_bit() {
    let mut o = PeerOptions(0);
    assert!(!o.get("SERVING"));
    o.set("SERVING", true);
    assert_eq!(o.0, 1);
    assert!(o.get("SERVING"));
    assert_eq!(o.inner(), 1);
    o.set("SERVING", false);
    assert_eq!(o.0, 0);
    assert!(!o.get("SERVING"));
}

#[test]
fn unknown_option_keys() {
    let mut o = PeerOptions(0b1010_1010);
    o.set("serving", true);
    o.set("OTHER", true);
    assert_eq!(o.0, 0b1010_1010);
    assert!(!o.get("OTHER"));
    assert_eq!(PeerOptions::index("SERVING"), Some(0));
    assert_eq!(PeerOptions::index("SERVIN"), None);
    assert_eq!(PeerOptions::index("SERVINGS"), None);
}

#[test]
fn serving_option_keeps_other_bits() {
    let mut o = PeerOptions(0b1010_1010);
    o.set("SERVING", true);
    assert_eq!(o.0, 0b1010_1011);
    o.set("SERVING", false);
    assert_eq!(o.0, 0b1010_1010);
    *o.inner_mut() = 5;
    assert_eq!(o.0, 5);
}

#[test]
fn peer_new_and_id() {
    let pk = PublicKey::from_string("a1b2").unwrap();
    let addr = SocketAddress::V4 { ip: 0x7f000001, port: 8080 };
    let p = Peer::new(addr, pk);
    assert_eq!(p.addr, addr);
    assert_eq!(p.options, PeerOptions(0));
    let digest = Sha256::digest(b"a1b2");
    let mut first = [0u8; 16];
    first.copy_from_slice(&digest[..16]);
    assert_eq!(p.derive_unique_id(), u128::from_le_bytes(first));
    let q = p.clone();
    assert_eq!(q.derive_unique_id(), p.derive_unique_id());
}

#[test]
fn peer_uri_text() {
    let p = Peer::new(
        SocketAddress::V4 { ip: 0, port: 1 },
        PublicKey::from_string("beef").unwrap(),
    );
    assert_eq!(p.uri_with_address("10.0.0.1:80"), "peer://beef@10.0.0.1:80");
}

#[test]
fn split_uri_ok() {
    let (pk, addr) = split_peer_uri("peer://00aa@127.0.0.1:7070").unwrap();
    assert_eq!(pk.as_str(), "00aa");
    assert_eq!(addr, "127.0.0.1:7070");
    let (pk, addr) = split_peer_uri("peer://00aa@x@y").unwrap();
    assert_eq!(pk.as_str(), "00aa");
    assert_eq!(addr, "x@y");
}

#[test]
fn split_uri_errors() {
    assert_eq!(split_peer_uri("tcp://aa@h:1").unwrap_err(), PeerParseError::MissingScheme);
    assert_eq!(split_peer_uri("peer://aah:1").unwrap_err(), PeerParseError::MissingAtSign);
    assert_eq!(split_peer_uri("peer://@h:1").unwrap_err(), PeerParseError::EmptyPublicKey);
    assert_eq!(split_peer_uri("peer://q@h:1").unwrap_err(), PeerParseError::InvalidPublicKeyHex);
}

#[test]
fn socket_address_helpers() {
    let a = SocketAddress::unspecified_v4(7070);
    assert_eq!(a, SocketAddress::V4 { ip: 0, port: 7070 });
    assert_eq!(a.port(), 7070);
    let b = SocketAddress::V6 { ip: 1, port: 7070, flowinfo: 0, scope_id: 0 };
    assert!(!a.same_as(&b));
    assert!(b.same_as(&b));
    assert_eq!(b.port(), 7070);
}

#[test]
fn peer_uri_reads_back() {
    let p = Peer::new(
        SocketAddress::V4 { ip: 0, port: 1 },
        PublicKey::from_string("C0ffee12").unwrap(),
    );
    let uri = p.uri_with_address("[::1]:9000");
    let (pk, addr) = split_peer_uri(&uri).unwrap();
    assert_eq!(pk.as_str(), "C0ffee12");
    assert_eq!(addr, "[::1]:9000");
    // a placeholder key is a UUID, whose hyphens the key check refuses
    let dummy = Peer::new(SocketAddress::V4 { ip: 0, port: 1 }, PublicKey::new_dummy());
    let uri = dummy.uri_with_address("127.0.0.1:1");
    assert_eq!(split_peer_uri(&uri).unwrap_err(), PeerParseError::InvalidPublicKeyHex);
}
