//! The fixed-layout protocol header and its byte codec.
//!
//! On the wire the header is eight little-endian integers, 32 bytes in all:
//! magic (2), version (2), flags (2), content type (2), extension length (4),
//! checksum (4), payload size (8) and session id (8).

use vstd::prelude::*;
use crate::bytes::{
    decode_le, le_decode, le_encode, lemma_le_decode_bound, lemma_le_decode_encode,
    lemma_le_encode_decode, lemma_le_encode_len, pow256, push_le,
};

verus! {

/// Number of bytes of an encoded header.
pub const HEADER_LEN: usize = 32;

/// Magic number that every header made by this node carries.
pub const HEADER_MAGIC: u16 = 0xE9BB;

/// What the payload of a packet holds.
#[derive(Debug, Clone, Copy, PartialEq, Eq, Structural)]
pub enum ContentType {
    Bin,
    Json,
    HandShake,
    Unknown,
}

impl ContentType {
    /// The 16-bit code of a content type on the wire.
    pub open spec fn spec_code(self) -> u16 {
        match self {
            ContentType::Bin => 0,
            ContentType::Json => 1,
            ContentType::HandShake => 2,
            ContentType::Unknown => 0xff,
        }
    }

    /// The content type with the given wire code, if there is one.
    pub open spec fn spec_from_code(code: u16) -> Option<ContentType> {
        if code == 0 {
            Some(ContentType::Bin)
        } else if code == 1 {
            Some(ContentType::Json)
        } else if code == 2 {
            Some(ContentType::HandShake)
        } else if code == 0xff {
            Some(ContentType::Unknown)
        } else {
            None
        }
    }

    pub fn code(&self) -> (c: u16)
        ensures
            c == self.spec_code(),
    {
        match self {
            ContentType::Bin => 0,
            ContentType::Json => 1,
            ContentType::HandShake => 2,
            ContentType::Unknown => 0xff,
        }
    }

    pub fn from_code(code: u16) -> (r: Option<ContentType>)
        ensures
            r == Self::spec_from_code(code),
    {
        if code == 0 {
            Some(ContentType::Bin)
        } else if code == 1 {
            Some(ContentType::Json)
        } else if code == 2 {
            Some(ContentType::HandShake)
        } else if code == 0xff {
            Some(ContentType::Unknown)
        } else {
            None
        }
    }

    /// Every content type is recovered from its code.
    pub proof fn lemma_code_roundtrip(ct: ContentType)
        ensures
            Self::spec_from_code(ct.spec_code()) == Some(ct),
    {
    }
}

/// Bit flags that a header may carry.
#[allow(non_camel_case_types)]
#[derive(Debug, Clone, Copy, PartialEq, Eq, Structural)]
pub enum Flags {
    Partial,
    Encryption,
    ProofOfWork,
    RESERVED,
}

impl Flags {
    /// The bit of a flag.
    pub open spec fn spec_bit(self) -> u16 {
        match self {
            Flags::Partial => 0x1,
            Flags::Encryption => 0x2,
            Flags::ProofOfWork => 0x4,
            Flags::RESERVED => 0x8,
        }
    }

    pub fn bit(&self) -> (b: u16)
        ensures
            b == self.spec_bit(),
    {
        match self {
            Flags::Partial => 0x1,
            Flags::Encryption => 0x2,
            Flags::ProofOfWork => 0x4,
            Flags::RESERVED => 0x8,
        }
    }

    /// Whether this flag is set in `flags`.
    pub fn check_in(&self, flags: u16) -> (b: bool)
        ensures
            b == (flags & self.spec_bit() != 0),
    {
        flags & self.bit() != 0
    }

    /// Sets `flag` in `flags`, leaving the other bits as they were.
    pub fn set_flag(flags: &mut u16, flag: Flags)
        ensures
            *final(flags) == *old(flags) | flag.spec_bit(),
    {
        *flags = *flags | flag.bit();
    }

    /// After setting a flag it is set, and every other flag reads as before.
    pub proof fn lemma_set_then_check(flags: u16, set: Flags, other: Flags)
        ensures
            (flags | set.spec_bit()) & set.spec_bit() != 0,
            other != set ==> (((flags | set.spec_bit()) & other.spec_bit() != 0) == (flags
                & other.spec_bit() != 0)),
    {
        let a = set.spec_bit();
        let b = other.spec_bit();
        assert(a == 1 || a == 2 || a == 4 || a == 8);
        assert(b == 1 || b == 2 || b == 4 || b == 8);
        assert((flags | a) & a != 0) by (bit_vector)
            requires
                a == 1 || a == 2 || a == 4 || a == 8,
        ;
        if other != set {
            assert(a != b);
            assert(((flags | a) & b != 0) == (flags & b != 0)) by (bit_vector)
                requires
                    a == 1 || a == 2 || a == 4 || a == 8,
                    b == 1 || b == 2 || b == 4 || b == 8,
                    a != b,
            ;
        }
    }
}

/// Why a header could not be read from bytes.
#[derive(Debug, Clone, Copy, PartialEq, Eq, Structural)]
pub enum HeaderError {
    /// The input ended before the header did.
    UnexpectedEnd,
    /// The content type field holds a code that names no content type.
    InvalidContentType(u16),
    /// The payload size does not fit in a `usize` on this machine.
    SizeOutOfRange(u64),
}

/// The fixed-size header in front of every packet.
#[derive(Debug, Clone, Copy, PartialEq, Eq, Structural)]
pub struct P2ProtHeader {
    pub magic: u16,
    pub version: u16,
    pub flags: u16,
    pub content_type: ContentType,
    pub header_ext_len: u32,
    pub checksum: u32,
    pub size: usize,
    pub session_id: u64,
}

/// The bytes of a header on the wire.
pub open spec fn spec_encode_header(h: P2ProtHeader) -> Seq<u8> {
    le_encode(h.magic as nat, 2) + le_encode(h.version as nat, 2) + le_encode(
        h.flags as nat,
        2,
    ) + le_encode(h.content_type.spec_code() as nat, 2) + le_encode(h.header_ext_len as nat, 4)
        + le_encode(h.checksum as nat, 4) + le_encode(h.size as nat, 8) + le_encode(
        h.session_id as nat,
        8,
    )
}

/// The little-endian number held in `b[start..start + n]`.
pub open spec fn field(b: Seq<u8>, start: int, n: int) -> nat {
    le_decode(b.subrange(start, start + n))
}

/// The header that the first 32 bytes of `b` hold, or why there is none.
///
/// Fields are read in order, so a bad content type code is reported before
/// a short input that ends after it.
pub open spec fn spec_decode_header(b: Seq<u8>) -> Result<P2ProtHeader, HeaderError> {
    if b.len() < 8 {
        Err(HeaderError::UnexpectedEnd)
    } else if ContentType::spec_from_code(field(b, 6, 2) as u16) is None {
        Err(HeaderError::InvalidContentType(field(b, 6, 2) as u16))
    } else if b.len() < 32 {
        Err(HeaderError::UnexpectedEnd)
    } else if field(b, 16, 8) > usize::MAX {
        Err(HeaderError::SizeOutOfRange(field(b, 16, 8) as u64))
    } else {
        Ok(
            P2ProtHeader {
                magic: field(b, 0, 2) as u16,
                version: field(b, 2, 2) as u16,
                flags: field(b, 4, 2) as u16,
                content_type: ContentType::spec_from_code(field(b, 6, 2) as u16).unwrap(),
                header_ext_len: field(b, 8, 4) as u32,
                checksum: field(b, 12, 4) as u32,
                size: field(b, 16, 8) as usize,
                session_id: field(b, 24, 8) as u64,
            },
        )
    }
}

impl Default for P2ProtHeader {
    fn default() -> (h: Self)
        ensures
            h.magic == HEADER_MAGIC,
            h.version == 0,
            h.flags == 0,
            h.content_type == ContentType::Bin,
            h.header_ext_len == 0,
            h.checksum == 0,
            h.size == 0,
            h.session_id == 0,
    {
        P2ProtHeader {
            magic: HEADER_MAGIC,
            content_type: ContentType::Bin,
            version: 0,
            flags: 0,
            header_ext_len: 0,
            size: 0,
            checksum: 0,
            session_id: 0,
        }
    }
}

impl P2ProtHeader {
    /// Reads a header from the first 32 bytes of `slice`; what follows them is ignored.
    pub fn from_bytes(slice: &[u8]) -> (r: Result<P2ProtHeader, HeaderError>)
        ensures
            r == spec_decode_header(slice@),
    {
        let ghost b = slice@;
        if slice.len() < 8 {
            return Err(HeaderError::UnexpectedEnd);
        }
        let code = decode_le(slice, 6, 2);
        proof {
            lemma_le_decode_bound(b.subrange(6, 8));
            reveal_with_fuel(pow256, 3);
        }
        let code = code as u16;
        let content_type = match ContentType::from_code(code) {
            Some(ct) => ct,
            None => {
                return Err(HeaderError::InvalidContentType(code));
            },
        };
        if slice.len() < HEADER_LEN {
            return Err(HeaderError::UnexpectedEnd);
        }
        let size = decode_le(slice, 16, 8);
        proof {
            lemma_le_decode_bound(b.subrange(16, 24));
            reveal_with_fuel(pow256, 9);
        }
        if size > usize::MAX as u128 {
            return Err(HeaderError::SizeOutOfRange(size as u64));
        }
        let magic = decode_le(slice, 0, 2);
        let version = decode_le(slice, 2, 2);
        let flags = decode_le(slice, 4, 2);
        let header_ext_len = decode_le(slice, 8, 4);
        let checksum = decode_le(slice, 12, 4);
        let session_id = decode_le(slice, 24, 8);
        proof {
            lemma_le_decode_bound(b.subrange(0, 2));
            lemma_le_decode_bound(b.subrange(2, 4));
            lemma_le_decode_bound(b.subrange(4, 6));
            lemma_le_decode_bound(b.subrange(8, 12));
            lemma_le_decode_bound(b.subrange(12, 16));
            lemma_le_decode_bound(b.subrange(24, 32));
        }
        Ok(
            P2ProtHeader {
                magic: magic as u16,
                version: version as u16,
                flags: flags as u16,
                content_type,
                header_ext_len: header_ext_len as u32,
                checksum: checksum as u32,
                size: size as usize,
                session_id: session_id as u64,
            },
        )
    }

    /// The 32 bytes of this header on the wire.
    pub fn to_bytes(&self) -> (out: Vec<u8>)
        ensures
            out@ == spec_encode_header(*self),
    {
        let mut out: Vec<u8> = Vec::new();
        push_le(&mut out, self.magic as u128, 2);
        push_le(&mut out, self.version as u128, 2);
        push_le(&mut out, self.flags as u128, 2);
        push_le(&mut out, self.content_type.code() as u128, 2);
        push_le(&mut out, self.header_ext_len as u128, 4);
        push_le(&mut out, self.checksum as u128, 4);
        push_le(&mut out, self.size as u128, 8);
        push_le(&mut out, self.session_id as u128, 8);
        assert(out@ =~= spec_encode_header(*self));
        out
    }
}

/// Reading back the bytes of a header gives the same header.
pub proof fn lemma_header_decode_encode(h: P2ProtHeader)
    ensures
        spec_encode_header(h).len() == HEADER_LEN,
        spec_decode_header(spec_encode_header(h)) == Ok::<P2ProtHeader, HeaderError>(h),
{
    reveal_with_fuel(pow256, 9);
    let e0 = le_encode(h.magic as nat, 2);
    let e1 = le_encode(h.version as nat, 2);
    let e2 = le_encode(h.flags as nat, 2);
    let e3 = le_encode(h.content_type.spec_code() as nat, 2);
    let e4 = le_encode(h.header_ext_len as nat, 4);
    let e5 = le_encode(h.checksum as nat, 4);
    let e6 = le_encode(h.size as nat, 8);
    let e7 = le_encode(h.session_id as nat, 8);
    lemma_le_encode_len(h.magic as nat, 2);
    lemma_le_encode_len(h.version as nat, 2);
    lemma_le_encode_len(h.flags as nat, 2);
    lemma_le_encode_len(h.content_type.spec_code() as nat, 2);
    lemma_le_encode_len(h.header_ext_len as nat, 4);
    lemma_le_encode_len(h.checksum as nat, 4);
    lemma_le_encode_len(h.size as nat, 8);
    lemma_le_encode_len(h.session_id as nat, 8);
    lemma_le_decode_encode(h.magic as nat, 2);
    lemma_le_decode_encode(h.version as nat, 2);
    lemma_le_decode_encode(h.flags as nat, 2);
    lemma_le_decode_encode(h.content_type.spec_code() as nat, 2);
    lemma_le_decode_encode(h.header_ext_len as nat, 4);
    lemma_le_decode_encode(h.checksum as nat, 4);
    lemma_le_decode_encode(h.size as nat, 8);
    lemma_le_decode_encode(h.session_id as nat, 8);
    let b = spec_encode_header(h);
    assert(b.len() == 32);
    assert(b.subrange(0, 2) =~= e0);
    assert(b.subrange(2, 4) =~= e1);
    assert(b.subrange(4, 6) =~= e2);
    assert(b.subrange(6, 8) =~= e3);
    assert(b.subrange(8, 12) =~= e4);
    assert(b.subrange(12, 16) =~= e5);
    assert(b.subrange(16, 24) =~= e6);
    assert(b.subrange(24, 32) =~= e7);
    ContentType::lemma_code_roundtrip(h.content_type);
}

/// A header read from bytes is written back as exactly the 32 bytes it was read from.
pub proof fn lemma_header_encode_decode(b: Seq<u8>)
    ensures
        spec_decode_header(b) matches Ok(h) ==> b.len() >= HEADER_LEN && spec_encode_header(h)
            == b.subrange(0, HEADER_LEN as int),
{
    if let Ok(h) = spec_decode_header(b) {
        reveal_with_fuel(pow256, 9);
        let s0 = b.subrange(0, 2);
        let s1 = b.subrange(2, 4);
        let s2 = b.subrange(4, 6);
        let s3 = b.subrange(6, 8);
        let s4 = b.subrange(8, 12);
        let s5 = b.subrange(12, 16);
        let s6 = b.subrange(16, 24);
        let s7 = b.subrange(24, 32);
        lemma_le_decode_bound(s0);
        lemma_le_decode_bound(s1);
        lemma_le_decode_bound(s2);
        lemma_le_decode_bound(s3);
        lemma_le_decode_bound(s4);
        lemma_le_decode_bound(s5);
        lemma_le_decode_bound(s6);
        lemma_le_decode_bound(s7);
        lemma_le_encode_decode(s0);
        lemma_le_encode_decode(s1);
        lemma_le_encode_decode(s2);
        lemma_le_encode_decode(s3);
        lemma_le_encode_decode(s4);
        lemma_le_encode_decode(s5);
        lemma_le_encode_decode(s6);
        lemma_le_encode_decode(s7);
        let code = le_decode(s3) as u16;
        assert(h.content_type.spec_code() == code);
        assert(spec_encode_header(h) =~= s0 + s1 + s2 + s3 + s4 + s5 + s6 + s7);
        assert(s0 + s1 + s2 + s3 + s4 + s5 + s6 + s7 =~= b.subrange(0, 32));
    }
}

/// Only the first 32 bytes of the input decide what header is read.
pub proof fn lemma_header_decode_prefix(b1: Seq<u8>, b2: Seq<u8>)
    requires
        b1.len() >= HEADER_LEN,
        b2.len() >= HEADER_LEN,
        b1.subrange(0, HEADER_LEN as int) == b2.subrange(0, HEADER_LEN as int),
    ensures
        spec_decode_header(b1) == spec_decode_header(b2),
{
    let p1 = b1.subrange(0, 32);
    let p2 = b2.subrange(0, 32);
    assert forall|s: int, n: int| 0 <= s && 0 <= n && s + n <= 32 implies #[trigger] field(
        b1,
        s,
        n,
    ) == field(b2, s, n) by {
        assert(b1.subrange(s, s + n) =~= p1.subrange(s, s + n));
        assert(b2.subrange(s, s + n) =~= p2.subrange(s, s + n));
    }
    assert(field(b1, 6, 2) == field(b2, 6, 2));
    assert(field(b1, 16, 8) == field(b2, 16, 8));
    assert(field(b1, 0, 2) == field(b2, 0, 2));
    assert(field(b1, 2, 2) == field(b2, 2, 2));
    assert(field(b1, 4, 2) == field(b2, 4, 2));
    assert(field(b1, 8, 4) == field(b2, 8, 4));
    assert(field(b1, 12, 4) == field(b2, 12, 4));
    assert(field(b1, 24, 8) == field(b2, 24, 8));
}

/// Where each field of a header sits in its 32 bytes, little-endian: magic at
/// 0, version at 2, flags at 4, content type code at 6 (two bytes each),
/// extension length at 8 and checksum at 12 (four bytes each), payload size at
/// 16 and session id at 24 (eight bytes each).
pub proof fn lemma_header_field_offsets(h: P2ProtHeader)
    ensures
        field(spec_encode_header(h), 0, 2) == h.magic,
        field(spec_encode_header(h), 2, 2) == h.version,
        field(spec_encode_header(h), 4, 2) == h.flags,
        field(spec_encode_header(h), 6, 2) == h.content_type.spec_code(),
        field(spec_encode_header(h), 8, 4) == h.header_ext_len,
        field(spec_encode_header(h), 12, 4) == h.checksum,
        field(spec_encode_header(h), 16, 8) == h.size,
        field(spec_encode_header(h), 24, 8) == h.session_id,
{
    reveal_with_fuel(pow256, 9);
    lemma_le_encode_len(h.magic as nat, 2);
    lemma_le_encode_len(h.version as nat, 2);
    lemma_le_encode_len(h.flags as nat, 2);
    lemma_le_encode_len(h.content_type.spec_code() as nat, 2);
    lemma_le_encode_len(h.header_ext_len as nat, 4);
    lemma_le_encode_len(h.checksum as nat, 4);
    lemma_le_encode_len(h.size as nat, 8);
    lemma_le_encode_len(h.session_id as nat, 8);
    lemma_le_decode_encode(h.magic as nat, 2);
    lemma_le_decode_encode(h.version as nat, 2);
    lemma_le_decode_encode(h.flags as nat, 2);
    lemma_le_decode_encode(h.content_type.spec_code() as nat, 2);
    lemma_le_decode_encode(h.header_ext_len as nat, 4);
    lemma_le_decode_encode(h.checksum as nat, 4);
    lemma_le_decode_encode(h.size as nat, 8);
    lemma_le_decode_encode(h.session_id as nat, 8);
    let b = spec_encode_header(h);
    assert(b.subrange(0, 2) =~= le_encode(h.magic as nat, 2));
    assert(b.subrange(2, 4) =~= le_encode(h.version as nat, 2));
    assert(b.subrange(4, 6) =~= le_encode(h.flags as nat, 2));
    assert(b.subrange(6, 8) =~= le_encode(h.content_type.spec_code() as nat, 2));
    assert(b.subrange(8, 12) =~= le_encode(h.header_ext_len as nat, 4));
    assert(b.subrange(12, 16) =~= le_encode(h.checksum as nat, 4));
    assert(b.subrange(16, 24) =~= le_encode(h.size as nat, 8));
    assert(b.subrange(24, 32) =~= le_encode(h.session_id as nat, 8));
}

} // verus!
