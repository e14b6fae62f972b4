use p2pchain::protocol::header::P2ProtHeader;
use p2pchain::protocol::proof_of_work::{PoWAlgo, PoWExt};
use sha2::{Digest, Sha256};

fn pow_digest(header: &P2ProtHeader, timestamp: u128, nonce: u64) -> Vec<u8> {
    let mut hasher = Sha256::new();
    hasher.update(header.size.to_le_bytes());
    hasher.update(header.checksum.to_le_bytes());
    hasher.update(timestamp.to_le_bytes());
    hasher.update(nonce.to_le_bytes());
    hasher.finalize().to_vec()
}

fn header() -> P2ProtHeader {
    let mut h = P2ProtHeader::default();
    h.size = 42;
    h.checksum = 0x01020304;
    h
}

#[test]
fn pow_algo_from_byte() {
    assert_eq!(PoWAlgo::from_u8(1), PoWAlgo::Sha256LeadingZero);
    assert_eq!(PoWAlgo::from_u8(0), PoWAlgo::NoAlgo);
    assert_eq!(PoWAlgo::from_u8(2), PoWAlgo::NoAlgo);
    assert_eq!(PoWAlgo::from_u8(255), PoWAlgo::NoAlgo);
    assert_eq!(PoWAlgo::Sha256LeadingZero.code(), 1);
    assert_eq!(PoWAlgo::NoAlgo.code(), 0);
}

#[test]
fn pow_mine_difficulty_zero_takes_first_nonce() {
    let p = PoWExt::mine(&header(), 0, 1000).unwrap();
    assert_eq!(p.nonce(), 1);
    assert_eq!(p.algo(), 1);
    assert_eq!(p.difficulty(), 0);
    assert_eq!(p.timestamp(), 1000);
}

#[test]
fn pow_mine_finds_first_matching_nonce() {
    let h = header();
    let p = PoWExt::mine(&h, 1, 77).unwrap();
    let digest = pow_digest(&h, 77, p.nonce());
    assert_eq!(digest[0], b'0');
    for n in 1..p.nonce() {
        assert_ne!(pow_digest(&h, 77, n)[0], b'0');
    }
}

#[test]
fn pow_new_uses_current_time() {
    let h = header();
    let p = PoWExt::new(&h, 1).unwrap();
    assert_eq!(p.algo(), 1);
    assert_eq!(pow_digest(&h, p.timestamp(), p.nonce())[0], b'0');
    assert!(p.timestamp() > 0);
}

#[test]
fn pow_update_peer_difficulty() {
    let p = PoWExt::from_parts(1, 9, 0, 0);
    let mut d: u8 = 3;
    p.update_peer_difficulty(&mut d);
    assert_eq!(d, 9);
}

#[test]
fn pow_validate_rules() {
    let h = header();
    // algorithm byte other than 0 never passes
    let mined = PoWExt::mine(&h, 1, 5).unwrap();
    assert!(!mined.validate(&h, 0));
    // algorithm 0 passes when the node asks for less than the extension's difficulty
    let easy = PoWExt::from_parts(0, 4, 5, 1);
    assert!(easy.validate(&h, 3));
    // otherwise the digest must meet the extension's difficulty
    let same = PoWExt::from_parts(0, 1, 5, mined.nonce());
    assert!(same.validate(&h, 1));
    let zero = PoWExt::from_parts(0, 0, 5, 12345);
    assert!(zero.validate(&h, 0));
    let mut bad_nonce = 1u64;
    while pow_digest(&h, 5, bad_nonce)[0] == b'0' {
        bad_nonce += 1;
    }
    let bad = PoWExt::from_parts(0, 1, 5, bad_nonce);
    assert!(!bad.validate(&h, 1));
    let too_hard = PoWExt::from_parts(0, 33, 5, 1);
    assert!(!too_hard.validate(&h, 200));
}
