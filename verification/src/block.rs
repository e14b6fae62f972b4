//! Blocks of the chain: their hash and the search for a nonce that makes the
//! hash start with enough zeros.

use vstd::prelude::*;
use vstd::string::StringSliceAdditionalSpecFns;
use vstd::utf8::encode_utf8;
use crate::bytes::{copy_bytes, hex_lower_chars, le_encode, push_all, push_le, to_hex_lower};
use crate::hashing::{now_millis, sha256, spec_sha256, timestamp_from_clock};
use crate::keys::{is_uuid_v4_text, random_uuid_string};
use crate::text::string_from_chars;

verus! {

/// A block: a payload, the hash of the block before it, a nonce and its own hash.
#[derive(Debug)]
pub struct Block {
    pub id: String,
    pub data: Vec<u8>,
    pub timestamp: u128,
    pub hash: String,
    pub prev_hash: String,
    pub nonce: u64,
}

/// The contents of a block.
pub struct BlockView {
    pub id: Seq<char>,
    pub data: Seq<u8>,
    pub timestamp: u128,
    pub hash: Seq<char>,
    pub prev_hash: Seq<char>,
    pub nonce: u64,
}

impl View for Block {
    type V = BlockView;

    open spec fn view(&self) -> BlockView {
        BlockView {
            id: self.id@,
            data: self.data@,
            timestamp: self.timestamp,
            hash: self.hash@,
            prev_hash: self.prev_hash@,
            nonce: self.nonce,
        }
    }
}

impl Clone for Block {
    fn clone(&self) -> (b: Self)
        ensures
            b@ == self@,
    {
        Block {
            id: self.id.clone(),
            data: copy_bytes(self.data.as_slice()),
            timestamp: self.timestamp,
            hash: self.hash.clone(),
            prev_hash: self.prev_hash.clone(),
            nonce: self.nonce,
        }
    }
}

/// The bytes a block's hash is taken over: the UTF-8 id, the data, the
/// timestamp (16 bytes), the UTF-8 previous hash and the nonce (8 bytes), the
/// numbers little-endian.
pub open spec fn block_hash_input(b: BlockView) -> Seq<u8> {
    encode_utf8(b.id) + b.data + le_encode(b.timestamp as nat, 16) + encode_utf8(b.prev_hash)
        + le_encode(b.nonce as nat, 8)
}

/// The hash of a block: the lowercase hexadecimal SHA-256 of its hash input.
pub open spec fn block_hash(b: BlockView) -> Seq<char> {
    to_hex_lower(spec_sha256(block_hash_input(b)))
}

/// The block with another nonce.
pub open spec fn with_nonce(b: BlockView, nonce: u64) -> BlockView {
    BlockView { nonce, ..b }
}

/// Whether `hash` starts with `difficulty` characters `'0'`.
pub open spec fn meets_target(hash: Seq<char>, difficulty: nat) -> bool {
    difficulty <= hash.len() && forall|i: int| 0 <= i < difficulty ==> hash[i] == '0'
}

/// `_GENESIS_`
pub open spec fn genesis_data() -> Seq<u8> {
    seq![0x5fu8, 0x47u8, 0x45u8, 0x4eu8, 0x45u8, 0x53u8, 0x49u8, 0x53u8, 0x5fu8]
}

/// The hash every genesis block carries: the hexadecimal SHA-256 of `_GENESIS_`.
pub open spec fn genesis_hash() -> Seq<char> {
    to_hex_lower(spec_sha256(genesis_data()))
}

/// A genesis block: any id and timestamp, data `_GENESIS_`, no previous hash,
/// nonce 0 and the genesis hash.
pub open spec fn is_genesis(b: BlockView) -> bool {
    &&& b.data == genesis_data()
    &&& b.hash == genesis_hash()
    &&& b.prev_hash.len() == 0
    &&& b.nonce == 0
}

/// Whether `hash` starts with `difficulty` characters `'0'`.
fn hash_meets_target(hash: &Vec<char>, difficulty: u8) -> (r: bool)
    ensures
        r == meets_target(hash@, difficulty as nat),
{
    if (difficulty as usize) > hash.len() {
        return false;
    }
    let mut i: usize = 0;
    while i < difficulty as usize
        invariant
            i <= difficulty <= hash@.len(),
            forall|j: int| 0 <= j < i ==> hash@[j] == '0',
        decreases difficulty - i,
    {
        if hash[i] != '0' {
            return false;
        }
        i = i + 1;
    }
    true
}

impl Block {
    /// A fresh block for `data` after the block whose hash is `prev_hash`,
    /// stamped `timestamp`: a random id, no hash yet and nonce 0.
    pub fn new_at(data: Vec<u8>, prev_hash: String, timestamp: u128) -> (b: Block)
        ensures
            is_uuid_v4_text(b@.id),
            b@.data == data@,
            b@.timestamp == timestamp,
            b@.hash.len() == 0,
            b@.prev_hash == prev_hash@,
            b@.nonce == 0,
    {
        Block { id: random_uuid_string(), data, timestamp, hash: String::new(), prev_hash, nonce: 0 }
    }

    /// A fresh block stamped with the current time; see `new_at`.
    pub fn new(data: Vec<u8>, prev_hash: String) -> (b: Block)
        ensures
            is_uuid_v4_text(b@.id),
            b@.data == data@,
            b@.hash.len() == 0,
            b@.prev_hash == prev_hash@,
            b@.nonce == 0,
    {
        Block::new_at(data, prev_hash, timestamp_from_clock(now_millis()))
    }

    /// The first block of a chain, stamped `timestamp`: a random id, data
    /// `_GENESIS_`, no previous hash, nonce 0 and the genesis hash.
    pub fn genesis_at(timestamp: u128) -> (b: Block)
        ensures
            is_genesis(b@),
            is_uuid_v4_text(b@.id),
            b@.timestamp == timestamp,
    {
        let data: Vec<u8> = vec![0x5fu8, 0x47u8, 0x45u8, 0x4eu8, 0x45u8, 0x53u8, 0x49u8, 0x53u8, 0x5fu8];
        assert(data@ =~= genesis_data());
        let digest = sha256(data.as_slice());
        let hex = hex_lower_chars(digest.as_slice());
        Block {
            id: random_uuid_string(),
            data,
            timestamp,
            hash: string_from_chars(hex.as_slice()),
            prev_hash: String::new(),
            nonce: 0,
        }
    }

    /// The first block of a chain, stamped with the current time; see `genesis_at`.
    pub fn genesis() -> (b: Block)
        ensures
            is_genesis(b@),
            is_uuid_v4_text(b@.id),
    {
        Block::genesis_at(timestamp_from_clock(now_millis()))
    }

    fn hash_chars(&self) -> (h: Vec<char>)
        ensures
            h@ == block_hash(self@),
            h@.len() == 64,
    {
        let mut input: Vec<u8> = Vec::new();
        push_all(&mut input, self.id.as_str().as_bytes());
        push_all(&mut input, self.data.as_slice());
        push_le(&mut input, self.timestamp, 16);
        push_all(&mut input, self.prev_hash.as_str().as_bytes());
        push_le(&mut input, self.nonce as u128, 8);
        assert(input@ =~= block_hash_input(self@));
        let digest = sha256(input.as_slice());
        proof {
            crate::bytes::lemma_to_hex_lower_len(digest@);
        }
        hex_lower_chars(digest.as_slice())
    }

    /// The hash of the block as its fields stand now.
    pub fn calculate_hash(&self) -> (h: String)
        ensures
            h@ == block_hash(self@),
            h@.len() == 64,
    {
        let cs = self.hash_chars();
        string_from_chars(cs.as_slice())
    }

    /// Looks for the nonce, above the current one, that makes the block's hash
    /// start with `difficulty` zeros, and stores it with the hash. With
    /// difficulty 0 no nonce is tried and the hash becomes empty. Returns whether
    /// the block was mined; when no nonce up to `u64::MAX` works the block is
    /// left as it was and the result is `false`.
    pub fn mine_block(&mut self, difficulty: u8) -> (mined: bool)
        ensures
            difficulty == 0 ==> mined && final(self)@ == (BlockView { hash: seq![], ..old(self)@ }),
            difficulty > 0 && mined ==> {
                &&& old(self)@.nonce < final(self)@.nonce
                &&& final(self)@ == (BlockView {
                    nonce: final(self)@.nonce,
                    hash: block_hash(with_nonce(old(self)@, final(self)@.nonce)),
                    ..old(self)@
                })
                &&& meets_target(final(self)@.hash, difficulty as nat)
                &&& forall|m: u64|
                    old(self)@.nonce < m < final(self)@.nonce ==> !meets_target(
                        #[trigger] block_hash(with_nonce(old(self)@, m)),
                        difficulty as nat,
                    )
            },
            difficulty > 0 && !mined ==> {
                &&& final(self)@ == old(self)@
                &&& forall|m: u64|
                    old(self)@.nonce < m ==> !meets_target(
                        #[trigger] block_hash(with_nonce(old(self)@, m)),
                        difficulty as nat,
                    )
            },
    {
        if difficulty == 0 {
            self.hash = String::new();
            return true;
        }
        let start = self.nonce;
        loop
            invariant
                difficulty > 0,
                start == old(self)@.nonce,
                start <= self.nonce,
                self@ == with_nonce(old(self)@, self.nonce),
                forall|m: u64|
                    start < m <= self.nonce ==> !meets_target(
                        #[trigger] block_hash(with_nonce(old(self)@, m)),
                        difficulty as nat,
                    ),
            decreases u64::MAX - self.nonce,
        {
            if self.nonce == u64::MAX {
                self.nonce = start;
                return false;
            }
            self.nonce = self.nonce + 1;
            let hash = self.hash_chars();
            if hash_meets_target(&hash, difficulty) {
                self.hash = string_from_chars(hash.as_slice());
                return true;
            }
        }
    }
}

/// Two blocks with the same id, data and timestamp have the same hash input
/// only when their previous hashes, in full, and their nonces are the same too.
pub proof fn lemma_block_hash_input_injective(a: BlockView, b: BlockView)
    requires
        a.id == b.id,
        a.data == b.data,
        a.timestamp == b.timestamp,
        block_hash_input(a) == block_hash_input(b),
    ensures
        a.prev_hash == b.prev_hash,
        a.nonce == b.nonce,
{
    let x = encode_utf8(a.id) + a.data + le_encode(a.timestamp as nat, 16);
    let pa = encode_utf8(a.prev_hash);
    let pb = encode_utf8(b.prev_hash);
    let na = le_encode(a.nonce as nat, 8);
    let nb = le_encode(b.nonce as nat, 8);
    crate::bytes::lemma_le_encode_len(a.nonce as nat, 8);
    crate::bytes::lemma_le_encode_len(b.nonce as nat, 8);
    let ia = block_hash_input(a);
    assert(ia == x + pa + na);
    assert(block_hash_input(b) == x + pb + nb);
    assert(pa.len() == pb.len());
    assert(ia.subrange(x.len() as int, x.len() + pa.len() as int) =~= pa);
    assert(ia.subrange(x.len() as int, x.len() + pb.len() as int) =~= pb);
    vstd::utf8::encode_utf8_decode_utf8(a.prev_hash);
    vstd::utf8::encode_utf8_decode_utf8(b.prev_hash);
    assert(ia.subrange(ia.len() - 8, ia.len() as int) =~= na);
    assert(ia.subrange(ia.len() - 8, ia.len() as int) =~= nb);
    reveal_with_fuel(crate::bytes::pow256, 9);
    crate::bytes::lemma_le_decode_encode(a.nonce as nat, 8);
    crate::bytes::lemma_le_decode_encode(b.nonce as nat, 8);
}

} // verus!
