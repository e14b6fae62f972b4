use p2pchain::errors::{NetworkError, PeerParseError};
use p2pchain::keys::PublicKey;

#[test]
fn public_key_accepts_hex() {
    let k = PublicKey::from_string("0123456789abcdefABCDEF").unwrap();
    assert_eq!(k.as_str(), "0123456789abcdefABCDEF");
    assert_eq!(k.to_string(), "0123456789abcdefABCDEF");
}

#[test]
fn public_key_rejects_empty_and_non_hex() {
    assert_eq!(PublicKey::from_string(""), Err(PeerParseError::EmptyPublicKey));
    assert_eq!(PublicKey::from_string("abg"), Err(PeerParseError::InvalidPublicKeyHex));
    assert_eq!(PublicKey::from_string("ab cd"), Err(PeerParseError::InvalidPublicKeyHex));
    assert_eq!(PublicKey::from_string("é"), Err(PeerParseError::InvalidPublicKeyHex));
}

#[test]
fn dummy_key_is_uuid_text() {
    let k = PublicKey::new_dummy();
    let s = k.to_string();
    assert_eq!(s.len(), 36);
    for (i, c) in s.chars().enumerate() {
        if i == 8 || i == 13 || i == 18 || i == 23 {
            assert_eq!(c, '-');
        } else {
            assert!(c.is_ascii_digit() || ('a'..='f').contains(&c));
        }
    }
    assert_eq!(s.chars().nth(14), Some('4'));
    assert_ne!(PublicKey::new_dummy(), k);
}

#[test]
fn peer_parse_error_messages() {
    assert_eq!(PeerParseError::MissingScheme.to_string(), "missing 'peer://' scheme");
    assert_eq!(
        PeerParseError::MissingAtSign.to_string(),
        "missing '@' between public key and address"
    );
    assert_eq!(PeerParseError::EmptyPublicKey.to_string(), "public key is empty");
    assert_eq!(
        PeerParseError::InvalidPublicKeyHex.to_string(),
        "public key must be hex (0-9a-fA-F)"
    );
    assert_eq!(PeerParseError::InvalidAddr.to_string(), "invalid address");
}

#[test]
fn network_error_messages() {
    assert_eq!(
        NetworkError::HandshakeRequired.to_string(),
        "Handshake required to stablish a connection"
    );
    assert_eq!(NetworkError::Block404.to_string(), "Block not found in our chian");
}
