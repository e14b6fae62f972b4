//! Proof-of-work header extension: a nonce that makes the SHA-256 of the packet's
//! size, checksum, timestamp and nonce start with enough `'0'` bytes.

use vstd::prelude::*;
use crate::bytes::{le_encode, push_le};
use crate::hashing::{now_millis, sha256, spec_sha256, timestamp_from_clock};
use crate::protocol::header::P2ProtHeader;

verus! {

/// Proof-of-work algorithms.
#[derive(Debug, Clone, Copy, PartialEq, Eq, Structural)]
pub enum PoWAlgo {
    NoAlgo,
    Sha256LeadingZero,
}

impl PoWAlgo {
    /// The byte that stands for an algorithm.
    pub open spec fn spec_code(self) -> u8 {
        match self {
            PoWAlgo::NoAlgo => 0,
            PoWAlgo::Sha256LeadingZero => 1,
        }
    }

    pub fn code(&self) -> (c: u8)
        ensures
            c == self.spec_code(),
    {
        match self {
            PoWAlgo::NoAlgo => 0,
            PoWAlgo::Sha256LeadingZero => 1,
        }
    }

    /// The algorithm a byte names: 1 is SHA-256 with leading zeros, anything else none.
    pub fn from_u8(byte: u8) -> (a: PoWAlgo)
        ensures
            a == (if byte == 1 {
                PoWAlgo::Sha256LeadingZero
            } else {
                PoWAlgo::NoAlgo
            }),
    {
        match byte {
            1 => PoWAlgo::Sha256LeadingZero,
            _ => PoWAlgo::NoAlgo,
        }
    }
}

/// Number of bytes of a `usize` on this machine.
pub open spec fn usize_bytes() -> nat {
    (usize::BITS / 8) as nat
}

/// The bytes a proof of work hashes: the header's size (as many bytes as a
/// `usize` has) and checksum, then the timestamp and the nonce, all little-endian.
pub open spec fn pow_input(header: P2ProtHeader, timestamp: u128, nonce: u64) -> Seq<u8> {
    le_encode(header.size as nat, usize_bytes()) + le_encode(header.checksum as nat, 4)
        + le_encode(timestamp as nat, 16) + le_encode(nonce as nat, 8)
}

/// Whether `hash` starts with `difficulty` bytes equal to `b'0'`.
pub open spec fn meets_difficulty(hash: Seq<u8>, difficulty: nat) -> bool {
    difficulty <= hash.len() && forall|i: int| 0 <= i < difficulty ==> hash[i] == 0x30u8
}

/// The digest a proof of work is judged by.
pub open spec fn pow_hash(header: P2ProtHeader, timestamp: u128, nonce: u64) -> Seq<u8> {
    spec_sha256(pow_input(header, timestamp, nonce))
}

/// `nonce` is the first nonce from 1 on whose digest meets the difficulty.
pub open spec fn is_first_pow_nonce(
    header: P2ProtHeader,
    timestamp: u128,
    difficulty: u8,
    nonce: u64,
) -> bool {
    &&& 1 <= nonce
    &&& meets_difficulty(pow_hash(header, timestamp, nonce), difficulty as nat)
    &&& forall|m: u64|
        1 <= m < nonce ==> !meets_difficulty(
            #[trigger] pow_hash(header, timestamp, m),
            difficulty as nat,
        )
}

/// No nonce from 1 on meets the difficulty with this timestamp.
pub open spec fn no_pow_nonce(header: P2ProtHeader, timestamp: u128, difficulty: u8) -> bool {
    forall|m: u64|
        1 <= m ==> !meets_difficulty(#[trigger] pow_hash(header, timestamp, m), difficulty as nat)
}

/// The proof-of-work extension of a packet.
#[derive(Debug, Clone, Copy, PartialEq, Eq, Structural)]
pub struct PoWExt {
    algo: u8,
    difficulty: u8,
    timestamp: u128,
    nonce: u64,
}

pub struct PoWExtView {
    pub algo: u8,
    pub difficulty: u8,
    pub timestamp: u128,
    pub nonce: u64,
}

impl View for PoWExt {
    type V = PoWExtView;

    closed spec fn view(&self) -> PoWExtView {
        PoWExtView {
            algo: self.algo,
            difficulty: self.difficulty,
            timestamp: self.timestamp,
            nonce: self.nonce,
        }
    }
}

/// Whether `hash` starts with `difficulty` bytes `b'0'`.
fn hash_meets_difficulty(hash: &Vec<u8>, difficulty: u8) -> (b: bool)
    ensures
        b == meets_difficulty(hash@, difficulty as nat),
{
    if (difficulty as usize) > hash.len() {
        return false;
    }
    let mut i: usize = 0;
    while i < difficulty as usize
        invariant
            i <= difficulty <= hash@.len(),
            forall|j: int| 0 <= j < i ==> hash@[j] == 0x30u8,
        decreases difficulty - i,
    {
        if hash[i] != 0x30u8 {
            return false;
        }
        i = i + 1;
    }
    true
}

impl PoWExt {
    /// An extension with the given fields, as read back from the wire.
    pub fn from_parts(algo: u8, difficulty: u8, timestamp: u128, nonce: u64) -> (p: PoWExt)
        ensures
            p@ == (PoWExtView { algo, difficulty, timestamp, nonce }),
    {
        PoWExt { algo, difficulty, timestamp, nonce }
    }

    pub fn algo(&self) -> (a: u8)
        ensures
            a == self@.algo,
    {
        self.algo
    }

    pub fn difficulty(&self) -> (d: u8)
        ensures
            d == self@.difficulty,
    {
        self.difficulty
    }

    pub fn timestamp(&self) -> (t: u128)
        ensures
            t == self@.timestamp,
    {
        self.timestamp
    }

    pub fn nonce(&self) -> (n: u64)
        ensures
            n == self@.nonce,
    {
        self.nonce
    }

    /// The digest of the packet's size and checksum with `timestamp` and `nonce`.
    fn gen_hash(header: &P2ProtHeader, timestamp: u128, nonce: u64) -> (h: Vec<u8>)
        ensures
            h@ == pow_hash(*header, timestamp, nonce),
            h@.len() == 32,
    {
        let mut input: Vec<u8> = Vec::new();
        push_le(&mut input, header.size as u128, (usize::BITS / 8) as usize);
        push_le(&mut input, header.checksum as u128, 4);
        push_le(&mut input, timestamp, 16);
        push_le(&mut input, nonce as u128, 8);
        assert(input@ =~= pow_input(*header, timestamp, nonce));
        sha256(input.as_slice())
    }

    /// Searches nonces 1, 2, ... for the first whose digest, with `timestamp`,
    /// starts with `difficulty` bytes `b'0'`. `None` when no nonce up to
    /// `u64::MAX` does.
    pub fn mine(header: &P2ProtHeader, difficulty: u8, timestamp: u128) -> (r: Option<PoWExt>)
        ensures
            match r {
                Some(p) => {
                    &&& p@.algo == PoWAlgo::Sha256LeadingZero.spec_code()
                    &&& p@.difficulty == difficulty
                    &&& p@.timestamp == timestamp
                    &&& is_first_pow_nonce(*header, timestamp, difficulty, p@.nonce)
                    &&& pow_hash(*header, timestamp, p@.nonce).subrange(0, difficulty as int)
                        == zero_chars(difficulty as nat)
                },
                None => no_pow_nonce(*header, timestamp, difficulty),
            },
    {
        let mut nonce: u64 = 0;
        loop
            invariant
                forall|m: u64|
                    1 <= m <= nonce ==> !meets_difficulty(
                        #[trigger] pow_hash(*header, timestamp, m),
                        difficulty as nat,
                    ),
            decreases u64::MAX - nonce,
        {
            if nonce == u64::MAX {
                return None;
            }
            nonce = nonce + 1;
            let hash = Self::gen_hash(header, timestamp, nonce);
            if hash_meets_difficulty(&hash, difficulty) {
                proof {
                    lemma_meets_difficulty_prefix(hash@, difficulty as nat);
                }
                return Some(
                    PoWExt {
                        algo: PoWAlgo::Sha256LeadingZero.code(),
                        difficulty,
                        timestamp,
                        nonce,
                    },
                );
            }
        }
    }

    /// Mines a proof of work for `header` stamped with the current time; see `mine`.
    pub fn new(header: &P2ProtHeader, difficulty: u8) -> (r: Option<PoWExt>)
        ensures
            match r {
                Some(p) => {
                    &&& p@.algo == PoWAlgo::Sha256LeadingZero.spec_code()
                    &&& p@.difficulty == difficulty
                    &&& is_first_pow_nonce(*header, p@.timestamp, difficulty, p@.nonce)
                },
                None => exists|timestamp: u128| #[trigger]
                    no_pow_nonce(*header, timestamp, difficulty),
            },
    {
        let timestamp = timestamp_from_clock(now_millis());
        Self::mine(header, difficulty, timestamp)
    }

    /// Sets `self_diff` to the difficulty this extension was mined with.
    pub fn update_peer_difficulty(&self, self_diff: &mut u8)
        ensures
            *final(self_diff) == self@.difficulty,
    {
        *self_diff = self.difficulty;
    }

    /// Judges the extension against a packet header and the node's own difficulty.
    /// Only algorithm byte 0 is judged: it passes when the node asks less than the
    /// extension's difficulty, or when the digest meets that difficulty. Any
    /// other algorithm byte fails.
    pub fn validate(&self, packet_header: &P2ProtHeader, self_diff: u8) -> (b: bool)
        ensures
            b == (self@.algo == 0 && (self_diff < self@.difficulty || meets_difficulty(
                pow_hash(*packet_header, self@.timestamp, self@.nonce),
                self@.difficulty as nat,
            ))),
    {
        match self.algo {
            0 => {
                if self_diff < self.difficulty {
                    true
                } else {
                    let hash = Self::gen_hash(packet_header, self.timestamp, self.nonce);
                    hash_meets_difficulty(&hash, self.difficulty)
                }
            },
            _ => false,
        }
    }
}

/// `difficulty` bytes `b'0'`.
pub open spec fn zero_chars(difficulty: nat) -> Seq<u8> {
    Seq::new(difficulty, |i: int| 0x30u8)
}

/// A digest meets a difficulty exactly when it starts with that many `b'0'`
/// bytes: its first `difficulty` bytes, every one of them, are `b'0'`.
pub proof fn lemma_meets_difficulty_prefix(hash: Seq<u8>, difficulty: nat)
    ensures
        meets_difficulty(hash, difficulty) <==> (difficulty <= hash.len() && hash.subrange(
            0,
            difficulty as int,
        ) == zero_chars(difficulty)),
{
    if difficulty <= hash.len() {
        if meets_difficulty(hash, difficulty) {
            assert(hash.subrange(0, difficulty as int) =~= zero_chars(difficulty));
        }
        if hash.subrange(0, difficulty as int) == zero_chars(difficulty) {
            assert forall|i: int| 0 <= i < difficulty implies hash[i] == 0x30u8 by {
                assert(hash.subrange(0, difficulty as int)[i] == zero_chars(difficulty)[i]);
            }
        }
    }
}

/// The nonce of a mined extension gives a digest that starts with
/// `difficulty` bytes `b'0'`, and no smaller nonce from 1 on does.
pub proof fn lemma_first_pow_nonce_prefix(
    header: P2ProtHeader,
    timestamp: u128,
    difficulty: u8,
    nonce: u64,
)
    requires
        is_first_pow_nonce(header, timestamp, difficulty, nonce),
    ensures
        difficulty <= pow_hash(header, timestamp, nonce).len(),
        pow_hash(header, timestamp, nonce).subrange(0, difficulty as int) == zero_chars(
            difficulty as nat,
        ),
        forall|m: u64|
            1 <= m < nonce ==> !(difficulty <= (#[trigger] pow_hash(header, timestamp, m)).len()
                && pow_hash(header, timestamp, m).subrange(0, difficulty as int) == zero_chars(
                difficulty as nat,
            )),
{
    lemma_meets_difficulty_prefix(pow_hash(header, timestamp, nonce), difficulty as nat);
    assert forall|m: u64| 1 <= m < nonce implies !(difficulty <= (#[trigger] pow_hash(
        header,
        timestamp,
        m,
    )).len() && pow_hash(header, timestamp, m).subrange(0, difficulty as int) == zero_chars(
        difficulty as nat,
    )) by {
        lemma_meets_difficulty_prefix(pow_hash(header, timestamp, m), difficulty as nat);
    }
}

/// The proof-of-work input holds the header's size and checksum, the timestamp
/// and the nonce in full: equal inputs come only from equal values of all four.
pub proof fn lemma_pow_input_injective(
    h1: P2ProtHeader,
    t1: u128,
    n1: u64,
    h2: P2ProtHeader,
    t2: u128,
    n2: u64,
)
    requires
        pow_input(h1, t1, n1) == pow_input(h2, t2, n2),
    ensures
        h1.size == h2.size,
        h1.checksum == h2.checksum,
        t1 == t2,
        n1 == n2,
{
    let ub = usize_bytes();
    assert(usize::BITS == 32 || usize::BITS == 64);
    reveal_with_fuel(crate::bytes::pow256, 17);
    assert(ub == 4 || ub == 8);
    assert(h1.size < crate::bytes::pow256(ub) && h2.size < crate::bytes::pow256(ub)) by {
        if usize::BITS == 32 {
            assert(usize::MAX == 0xffff_ffff);
        } else {
            assert(usize::MAX == 0xffff_ffff_ffff_ffff);
        }
    }
    crate::bytes::lemma_le_encode_len(h1.size as nat, ub);
    crate::bytes::lemma_le_encode_len(h2.size as nat, ub);
    crate::bytes::lemma_le_encode_len(h1.checksum as nat, 4);
    crate::bytes::lemma_le_encode_len(h2.checksum as nat, 4);
    crate::bytes::lemma_le_encode_len(t1 as nat, 16);
    crate::bytes::lemma_le_encode_len(t2 as nat, 16);
    crate::bytes::lemma_le_encode_len(n1 as nat, 8);
    crate::bytes::lemma_le_encode_len(n2 as nat, 8);
    crate::bytes::lemma_pow256_16();
    crate::bytes::lemma_le_decode_encode(h1.size as nat, ub);
    crate::bytes::lemma_le_decode_encode(h2.size as nat, ub);
    crate::bytes::lemma_le_decode_encode(h1.checksum as nat, 4);
    crate::bytes::lemma_le_decode_encode(h2.checksum as nat, 4);
    crate::bytes::lemma_le_decode_encode(t1 as nat, 16);
    crate::bytes::lemma_le_decode_encode(t2 as nat, 16);
    crate::bytes::lemma_le_decode_encode(n1 as nat, 8);
    crate::bytes::lemma_le_decode_encode(n2 as nat, 8);
    let a = pow_input(h1, t1, n1);
    let b = pow_input(h2, t2, n2);
    let u = ub as int;
    assert(a.subrange(0, u) =~= le_encode(h1.size as nat, ub));
    assert(b.subrange(0, u) =~= le_encode(h2.size as nat, ub));
    assert(a.subrange(u, u + 4) =~= le_encode(h1.checksum as nat, 4));
    assert(b.subrange(u, u + 4) =~= le_encode(h2.checksum as nat, 4));
    assert(a.subrange(u + 4, u + 20) =~= le_encode(t1 as nat, 16));
    assert(b.subrange(u + 4, u + 20) =~= le_encode(t2 as nat, 16));
    assert(a.subrange(u + 20, u + 28) =~= le_encode(n1 as nat, 8));
    assert(b.subrange(u + 20, u + 28) =~= le_encode(n2 as nat, 8));
}

} // verus!
