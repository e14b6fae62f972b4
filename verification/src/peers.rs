//! Peers of the network: their options, their identity and the URIs they are
//! written as (`peer://<public key>@<address>`).

use vstd::prelude::*;
use crate::address::SocketAddress;
use crate::bytes::{decode_le, le_decode};
use crate::errors::PeerParseError;
use crate::hashing::{sha256, spec_sha256};
use crate::keys::{PublicKey, spec_public_key_check};
use crate::text::{
    chars_of, find_first, find_first_exec, has_prefix, has_prefix_exec, is_hex_digit,
    lemma_find_first, string_from_chars, sub_chars,
};
use crate::utils::Bitmask;
use vstd::string::StringSliceAdditionalSpecFns;
use vstd::utf8::encode_utf8;

verus! {

/// `SERVING`, the one option key.
pub open spec fn serving_key() -> Seq<char> {
    seq!['S', 'E', 'R', 'V', 'I', 'N', 'G']
}

/// The bit of an option key: `SERVING` is bit 0; no other key names an option.
pub open spec fn spec_option_index(key: Seq<char>) -> Option<u8> {
    if key == serving_key() {
        Some(0u8)
    } else {
        None
    }
}

/// Options a peer advertises, as bits.
#[derive(Debug, Clone, Copy, PartialEq, Eq, Structural)]
pub struct PeerOptions(pub u8);

impl Bitmask for PeerOptions {
    type Repr = u8;

    type IndexKey = &'static str;

    fn set(&mut self, key: &'static str, value: bool)
        ensures
            final(self).0 == match spec_option_index(key@) {
                Some(bit) => if value {
                    old(self).0 | (1u8 << bit)
                } else {
                    old(self).0 & !(1u8 << bit)
                },
                None => old(self).0,
            },
    {
        if let Some(bit) = Self::index(key) {
            if value {
                *self.inner_mut() |= 1u8 << bit;
            } else {
                *self.inner_mut() &= !(1u8 << bit);
            }
        }
    }

    fn get(&self, key: &'static str) -> (b: bool)
        ensures
            b == match spec_option_index(key@) {
                Some(bit) => self.0 & (1u8 << bit) != 0,
                None => false,
            },
    {
        if let Some(bit) = Self::index(key) {
            (self.inner() & (1u8 << bit)) != 0
        } else {
            false
        }
    }

    fn index(key: &'static str) -> (r: Option<u8>)
        ensures
            r == spec_option_index(key@),
    {
        let cs = chars_of(key);
        let serving: Vec<char> = vec!['S', 'E', 'R', 'V', 'I', 'N', 'G'];
        assert(serving@ =~= serving_key());
        assert(cs@.subrange(0, cs@.len() as int) =~= cs@);
        if cs.len() == 7 && has_prefix_exec(cs.as_slice(), 0, serving.as_slice()) {
            assert(cs@ =~= serving_key());
            Some(0)
        } else {
            None
        }
    }

    fn inner(&self) -> (r: u8)
        ensures
            r == self.0,
    {
        self.0
    }

    fn inner_mut(&mut self) -> (r: &mut u8)
        ensures
            *r == old(self).0,
            final(self).0 == *final(r),
    {
        &mut self.0
    }
}

/// Setting the `SERVING` option and reading it back gives what was set, and
/// leaves the other bits as they were.
pub proof fn lemma_option_set_get(bits: u8, value: bool)
    ensures
        ({
            let set = if value {
                bits | (1u8 << 0u8)
            } else {
                bits & !(1u8 << 0u8)
            };
            &&& (set & (1u8 << 0u8) != 0) == value
            &&& set & 0xfe == bits & 0xfe
        }),
{
    if value {
        assert((bits | (1u8 << 0u8)) & (1u8 << 0u8) != 0) by (bit_vector);
        assert((bits | (1u8 << 0u8)) & 0xfe == bits & 0xfe) by (bit_vector);
    } else {
        assert((bits & !(1u8 << 0u8)) & (1u8 << 0u8) == 0) by (bit_vector);
        assert((bits & !(1u8 << 0u8)) & 0xfe == bits & 0xfe) by (bit_vector);
    }
}

/// A peer: where it listens, its public key and its options.
#[derive(Debug)]
pub struct Peer {
    pub addr: SocketAddress,
    pub pk: PublicKey,
    pub options: PeerOptions,
}

impl Clone for Peer {
    fn clone(&self) -> (p: Self)
        ensures
            p.addr == self.addr,
            p.pk@ == self.pk@,
            p.options == self.options,
    {
        Peer { addr: self.addr, pk: self.pk.clone(), options: self.options }
    }
}

/// The identity of a peer: the first 16 bytes of the SHA-256 of its public
/// key's UTF-8 text, read little-endian.
pub open spec fn spec_peer_id(pk: Seq<char>) -> u128 {
    le_decode(spec_sha256(encode_utf8(pk)).subrange(0, 16)) as u128
}

/// `peer://`
pub open spec fn peer_uri_scheme() -> Seq<char> {
    seq!['p', 'e', 'e', 'r', ':', '/', '/']
}

/// The public key and the address text of `peer://<public key>@<address>`, or
/// the first check the URI fails. The address text is everything after the
/// first `@`.
pub open spec fn spec_split_peer_uri(u: Seq<char>) -> Result<(Seq<char>, Seq<char>), PeerParseError> {
    if !has_prefix(u, peer_uri_scheme()) {
        Err(PeerParseError::MissingScheme)
    } else {
        let p = u.subrange(7, u.len() as int);
        match find_first(p, '@') {
            None => Err(PeerParseError::MissingAtSign),
            Some(at) => {
                let pk = p.subrange(0, at);
                match spec_public_key_check(pk) {
                    Err(e) => Err(e),
                    Ok(_) => Ok((pk, p.subrange(at + 1, p.len() as int))),
                }
            },
        }
    }
}

impl Peer {
    /// A peer at `addr` with key `pk` and no options set.
    pub fn new(addr: SocketAddress, pk: PublicKey) -> (p: Peer)
        ensures
            p.addr == addr,
            p.pk@ == pk@,
            p.options == PeerOptions(0),
    {
        Peer { addr, pk, options: PeerOptions(0) }
    }

    /// The peer's identity, derived from its public key.
    pub fn derive_unique_id(&self) -> (id: u128)
        ensures
            id == spec_peer_id(self.pk@),
    {
        let digest = sha256(self.pk.as_str().as_bytes());
        let id = decode_le(digest.as_slice(), 0, 16);
        id
    }

    /// `peer://<public key>@<host>:<port>`: the URI of the peer, given the text
    /// of its address.
    pub fn uri_with_address(&self, address: &str) -> (s: String)
        ensures
            s@ == peer_uri_scheme() + self.pk@ + seq!['@'] + address@,
    {
        let mut out: Vec<char> = vec!['p', 'e', 'e', 'r', ':', '/', '/'];
        let pk = chars_of(self.pk.as_str());
        let ad = chars_of(address);
        let mut i: usize = 0;
        let ghost start = out@;
        while i < pk.len()
            invariant
                i <= pk@.len(),
                out@ == start + pk@.subrange(0, i as int),
            decreases pk@.len() - i,
        {
            out.push(pk[i]);
            assert(out@ =~= start + pk@.subrange(0, i + 1));
            i = i + 1;
        }
        out.push('@');
        let ghost mid = out@;
        let mut j: usize = 0;
        while j < ad.len()
            invariant
                j <= ad@.len(),
                out@ == mid + ad@.subrange(0, j as int),
            decreases ad@.len() - j,
        {
            out.push(ad[j]);
            assert(out@ =~= mid + ad@.subrange(0, j + 1));
            j = j + 1;
        }
        assert(pk@.subrange(0, pk@.len() as int) =~= pk@);
        assert(ad@.subrange(0, ad@.len() as int) =~= ad@);
        assert(out@ =~= peer_uri_scheme() + self.pk@ + seq!['@'] + address@);
        string_from_chars(out.as_slice())
    }
}

/// Splits `peer://<public key>@<address>` into the checked public key and the
/// text of the address, which the caller reads as a socket address
/// (`PeerParseError::InvalidAddr` when it is none).
pub fn split_peer_uri(uri: &str) -> (r: Result<(PublicKey, String), PeerParseError>)
    ensures
        match (r, spec_split_peer_uri(uri@)) {
            (Ok((pk, addr)), Ok((spk, saddr))) => pk@ == spk && addr@ == saddr,
            (Err(e), Err(f)) => e == f,
            _ => false,
        },
{
    let cs = chars_of(uri);
    let n = cs.len();
    let ghost u = cs@;
    let scheme: Vec<char> = vec!['p', 'e', 'e', 'r', ':', '/', '/'];
    assert(scheme@ =~= peer_uri_scheme());
    assert(u.subrange(0, n as int) =~= u);
    if !has_prefix_exec(cs.as_slice(), 0, scheme.as_slice()) {
        return Err(PeerParseError::MissingScheme);
    }
    let ghost p = u.subrange(7, n as int);
    let at = match find_first_exec(cs.as_slice(), 7, n, '@') {
        None => {
            return Err(PeerParseError::MissingAtSign);
        },
        Some(a) => a,
    };
    assert(p.subrange(0, at as int) =~= u.subrange(7, 7 + at));
    assert(p.subrange(at + 1, p.len() as int) =~= u.subrange(7 + at + 1, n as int));
    let pk_chars = sub_chars(cs.as_slice(), 7, 7 + at);
    let pk_text = string_from_chars(pk_chars.as_slice());
    let pk = match PublicKey::from_string(pk_text.as_str()) {
        Err(e) => {
            return Err(e);
        },
        Ok(k) => k,
    };
    let addr_chars = sub_chars(cs.as_slice(), 7 + at + 1, n);
    Ok((pk, string_from_chars(addr_chars.as_slice())))
}

/// The URI of a peer whose key passes the check reads back as that key and the
/// address text it was written with.
pub proof fn lemma_peer_uri_roundtrip(pk: Seq<char>, address: Seq<char>)
    requires
        spec_public_key_check(pk) is Ok,
    ensures
        spec_split_peer_uri(peer_uri_scheme() + pk + seq!['@'] + address) == Ok::<
            (Seq<char>, Seq<char>),
            PeerParseError,
        >((pk, address)),
{
    let u = peer_uri_scheme() + pk + seq!['@'] + address;
    assert(u.subrange(0, 7) =~= peer_uri_scheme());
    let p = u.subrange(7, u.len() as int);
    assert(p =~= pk + seq!['@'] + address);
    assert forall|j: int| 0 <= j < pk.len() implies p[j] != '@' by {
        assert(p[j] == pk[j]);
        assert(is_hex_digit(pk[j]));
    }
    lemma_find_first(p, '@', pk.len() as int);
    assert(p.subrange(0, pk.len() as int) =~= pk);
    assert(p.subrange(pk.len() as int + 1, p.len() as int) =~= address);
}

/// The id of a peer, written back as sixteen little-endian bytes, is the first
/// sixteen bytes of the SHA-256 digest of the whole UTF-8 text of its key; two
/// keys give the same id exactly when those digests agree in them.
pub proof fn lemma_peer_id_is_digest_prefix(pk: Seq<char>, other: Seq<char>)
    requires
        spec_sha256(encode_utf8(pk)).len() >= 16,
        spec_sha256(encode_utf8(other)).len() >= 16,
    ensures
        crate::bytes::le_encode(spec_peer_id(pk) as nat, 16) == spec_sha256(
            encode_utf8(pk),
        ).subrange(0, 16),
        (spec_peer_id(pk) == spec_peer_id(other)) <==> (spec_sha256(encode_utf8(pk)).subrange(
            0,
            16,
        ) == spec_sha256(encode_utf8(other)).subrange(0, 16)),
{
    let d = spec_sha256(encode_utf8(pk)).subrange(0, 16);
    let e = spec_sha256(encode_utf8(other)).subrange(0, 16);
    crate::bytes::lemma_le_decode_bound(d);
    crate::bytes::lemma_le_decode_bound(e);
    crate::bytes::lemma_pow256_16();
    crate::bytes::lemma_le_encode_decode(d);
    crate::bytes::lemma_le_encode_decode(e);
}

} // verus!
