use p2pchain::block::Block;
use p2pchain::blockchain::Blockchain;
use sha2::{Digest, Sha256};

fn hex(bytes: &[u8]) -> String {
    bytes.iter().map(|b| format!("{:02x}", b)).collect()
}

fn reference_hash(b: &Block) -> String {
    let mut hasher = Sha256::new();
    hasher.update(b.id.as_bytes());
    hasher.update(&b.data);
    hasher.update(b.timestamp.to_le_bytes());
    hasher.update(b.prev_hash.as_bytes());
    hasher.update(b.nonce.to_le_bytes());
    format!("{:x}", hasher.finalize())
}

fn fixed_block() -> Block {
    Block {
        id: "id-1".to_string(),
        data: vec![1, 2, 3],
        timestamp: 1_700_000_000_000,
        hash: String::new(),
        prev_hash: "abc".to_string(),
        nonce: 7,
    }
}

#[test]
fn block_hash_matches_reference() {
    let b = fixed_block();
    assert_eq!(b.calculate_hash(), reference_hash(&b));
    assert_eq!(b.calculate_hash().len(), 64);
}

#[test]
fn block_hash_hex_of_known_digest() {
    let b = Block {
        id: String::new(),
        data: vec![],
        timestamp: 0,
        hash: String::new(),
        prev_hash: String::new(),
        nonce: 0,
    };
    let expected = hex(&Sha256::digest([0u8; 24]));
    assert_eq!(b.calculate_hash(), expected);
}

#[test]
fn genesis_block() {
    let g = Block::genesis();
    assert_eq!(g.data, b"_GENESIS_".to_vec());
    assert_eq!(g.prev_hash, "");
    assert_eq!(g.nonce, 0);
    assert_eq!(g.hash, hex(&Sha256::digest(b"_GENESIS_")));
    assert_eq!(g.id.len(), 36);
}

#[test]
fn blocks_at_a_given_time() {
    let b = Block::new_at(vec![1, 2], "p".to_string(), 77);
    assert_eq!(b.timestamp, 77);
    assert_eq!(b.data, vec![1, 2]);
    assert_eq!(b.prev_hash, "p");
    assert_eq!(b.hash, "");
    assert_eq!(b.nonce, 0);
    let g = Block::genesis_at(5);
    assert_eq!(g.timestamp, 5);
    assert_eq!(g.hash, hex(&Sha256::digest(b"_GENESIS_")));
    assert_eq!(p2pchain::hashing::timestamp_from_clock(Some(42)), 42);
    assert_eq!(p2pchain::hashing::timestamp_from_clock(None), 0);
}

#[test]
fn new_block_fields() {
    let b = Block::new(vec![9, 9], "prev".to_string());
    assert_eq!(b.data, vec![9, 9]);
    assert_eq!(b.prev_hash, "prev");
    assert_eq!(b.hash, "");
    assert_eq!(b.nonce, 0);
    assert_eq!(b.id.len(), 36);
    assert!(b.timestamp > 0);
}

#[test]
fn mine_block_difficulty_two() {
    let mut b = fixed_block();
    assert!(b.mine_block(2));
    assert!(b.hash.starts_with("00"));
    assert!(b.nonce > 7);
    assert_eq!(b.hash, b.calculate_hash());
    let mut probe = fixed_block();
    for n in 8..b.nonce {
        probe.nonce = n;
        assert!(!probe.calculate_hash().starts_with("00"));
    }
}

#[test]
fn mine_block_difficulty_zero_clears_hash() {
    let mut b = fixed_block();
    b.hash = "something".to_string();
    assert!(b.mine_block(0));
    assert_eq!(b.hash, "");
    assert_eq!(b.nonce, 7);
}

#[test]
fn block_clone_keeps_fields() {
    let b = fixed_block();
    let c = b.clone();
    assert_eq!(c.id, b.id);
    assert_eq!(c.data, b.data);
    assert_eq!(c.timestamp, b.timestamp);
    assert_eq!(c.prev_hash, b.prev_hash);
    assert_eq!(c.nonce, b.nonce);
}

#[test]
fn chain_starts_with_genesis() {
    let chain = Blockchain::new();
    assert_eq!(chain.last_hash(), hex(&Sha256::digest(b"_GENESIS_")));
    let last = chain.last_block().unwrap();
    assert_eq!(last.data, b"_GENESIS_".to_vec());
}

#[test]
fn chain_mines_at_difficulty_three() {
    let mut chain = Blockchain::new();
    let block = Block::new(b"hello".to_vec(), chain.last_hash());
    assert!(chain.mine_and_add_block(&block));
    let last = chain.last_block().unwrap();
    assert!(last.hash.starts_with("000"));
    assert_eq!(last.hash, last.calculate_hash());
    assert_eq!(last.data, b"hello".to_vec());
    assert_eq!(last.id, block.id);
    assert_eq!(chain.last_hash(), last.hash);
    assert!(last.nonce > block.nonce);
}
