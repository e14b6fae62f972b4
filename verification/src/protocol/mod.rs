//! The wire protocol: a fixed 32-byte header, optional header extensions and a payload.

pub mod header;
pub mod header_ext;
pub mod proof_of_work;

use vstd::prelude::*;
use crate::bytes::{decode_le, le_decode, push_all};
use crate::hashing::{sha256, spec_sha256};
use crate::protocol::header::{
    ContentType, HEADER_LEN, HEADER_MAGIC, P2ProtHeader, lemma_header_decode_encode,
    spec_decode_header, spec_encode_header,
};
use crate::protocol::header_ext::HeaderExt;

verus! {

/// The checksum of a payload: the first four bytes of its SHA-256, little-endian.
pub open spec fn payload_checksum(payload: Seq<u8>) -> u32 {
    le_decode(spec_sha256(payload).subrange(0, 4)) as u32
}

/// The header a fresh packet carries: the default header with the content type,
/// the payload's size and checksum, and the given session id.
pub open spec fn framed_header(content_type: ContentType, payload: Seq<u8>, session_id: u64) -> P2ProtHeader {
    P2ProtHeader {
        magic: HEADER_MAGIC,
        version: 0,
        flags: 0,
        content_type,
        header_ext_len: 0,
        checksum: payload_checksum(payload),
        size: payload.len() as usize,
        session_id,
    }
}

/// The bytes of a packet: its header, then its payload.
pub open spec fn spec_frame(header: P2ProtHeader, payload: Seq<u8>) -> Seq<u8> {
    spec_encode_header(header) + payload
}

/// A packet: header, header extensions and the encoded message.
#[derive(Debug)]
pub struct P2Protocol {
    pub header: P2ProtHeader,
    pub header_exts: Vec<HeaderExt>,
    pub payload: Vec<u8>,
}

impl P2Protocol {
    /// Frames an encoded message: the header records its content type, size and
    /// checksum, with session id 0 and no extensions.
    pub fn new(content_type: ContentType, payload: Vec<u8>) -> (p: P2Protocol)
        ensures
            p.header == framed_header(content_type, payload@, 0),
            p.header_exts@.len() == 0,
            p.payload@ == payload@,
    {
        let digest = sha256(payload.as_slice());
        let checksum = decode_le(digest.as_slice(), 0, 4);
        proof {
            crate::bytes::lemma_le_decode_bound(digest@.subrange(0, 4));
            reveal_with_fuel(crate::bytes::pow256, 5);
        }
        let mut header = P2ProtHeader::default();
        header.content_type = content_type;
        header.size = payload.len();
        header.checksum = checksum as u32;
        P2Protocol { header, header_exts: Vec::new(), payload }
    }

    /// Frames an encoded message for the session of peer `peer_id`.
    pub fn new_with_peer(content_type: ContentType, payload: Vec<u8>, peer_id: u64) -> (p: P2Protocol)
        ensures
            p.header == framed_header(content_type, payload@, peer_id),
            p.header_exts@.len() == 0,
            p.payload@ == payload@,
    {
        let mut prot = P2Protocol::new(content_type, payload);
        prot.header.session_id = peer_id;
        prot
    }

    /// The bytes of the packet on the wire: the header, then the payload.
    /// Extensions are not written.
    pub fn serialize(&self) -> (out: Vec<u8>)
        ensures
            out@ == spec_frame(self.header, self.payload@),
    {
        let mut out = self.header.to_bytes();
        push_all(&mut out, self.payload.as_slice());
        out
    }

    /// Adds an extension. The header's extension length goes up by one for
    /// each extension added.
    pub fn add_extention(&mut self, ext: HeaderExt)
        requires
            old(self).header.header_ext_len < u32::MAX,
        ensures
            final(self).header == (P2ProtHeader {
                header_ext_len: (old(self).header.header_ext_len + 1) as u32,
                ..old(self).header
            }),
            final(self).header_exts@ == old(self).header_exts@.push(ext),
            final(self).payload@ == old(self).payload@,
    {
        self.header.header_ext_len = self.header.header_ext_len + 1;
        self.header_exts.push(ext);
    }
}

/// The bytes of a packet start with its header, which reads back unchanged,
/// and the payload follows it.
pub proof fn lemma_frame_roundtrip(header: P2ProtHeader, payload: Seq<u8>)
    ensures
        spec_decode_header(spec_frame(header, payload)) == Ok::<P2ProtHeader, header::HeaderError>(header),
        spec_frame(header, payload).subrange(
            HEADER_LEN as int,
            HEADER_LEN + payload.len(),
        ) == payload,
{
    lemma_header_decode_encode(header);
    let f = spec_frame(header, payload);
    let e = spec_encode_header(header);
    assert(f.subrange(0, 32) =~= e);
    assert(e.subrange(0, 32) =~= e);
    header::lemma_header_decode_prefix(f, e);
    assert(f.subrange(32, 32 + payload.len() as int) =~= payload);
}

/// The packets a byte stream holds, read one after another: a header, then as
/// many payload bytes as the header's size names. `None` when a header cannot
/// be read or the stream ends inside a payload.
pub open spec fn spec_read_frames(b: Seq<u8>) -> Option<Seq<(P2ProtHeader, Seq<u8>)>>
    decreases b.len(),
{
    if b.len() == 0 {
        Some(Seq::empty())
    } else {
        match spec_decode_header(b) {
            Err(_) => None,
            Ok(h) => {
                if b.len() < HEADER_LEN + h.size {
                    None
                } else {
                    match spec_read_frames(b.subrange(HEADER_LEN + h.size, b.len() as int)) {
                        None => None,
                        Some(rest) => Some(
                            seq![(h, b.subrange(HEADER_LEN as int, HEADER_LEN + h.size))] + rest,
                        ),
                    }
                }
            },
        }
    }
}

/// The bytes of packets sent one after another.
pub open spec fn spec_frames(fs: Seq<(P2ProtHeader, Seq<u8>)>) -> Seq<u8>
    decreases fs.len(),
{
    if fs.len() == 0 {
        Seq::empty()
    } else {
        spec_frame(fs[0].0, fs[0].1) + spec_frames(fs.drop_first())
    }
}

/// One step of reading a stream: a readable header followed by its payload and
/// then the rest of the stream.
proof fn lemma_read_frames_step(b: Seq<u8>, h: P2ProtHeader, p: Seq<u8>, rest: Seq<u8>)
    requires
        spec_decode_header(b) == Ok::<P2ProtHeader, header::HeaderError>(h),
        h.size == p.len(),
        b == spec_encode_header(h) + p + rest,
        spec_encode_header(h).len() == HEADER_LEN,
    ensures
        spec_read_frames(b) == match spec_read_frames(rest) {
            None => None,
            Some(r) => Some(seq![(h, p)] + r),
        },
{
    assert(b.subrange(32, 32 + h.size) =~= p);
    assert(b.subrange(32 + h.size, b.len() as int) =~= rest);
}

/// A stream of packets, each with a header that names its payload's size,
/// reads back as exactly those packets, in order.
pub proof fn lemma_frames_roundtrip(fs: Seq<(P2ProtHeader, Seq<u8>)>)
    requires
        forall|i: int| 0 <= i < fs.len() ==> (#[trigger] fs[i]).0.size == fs[i].1.len(),
    ensures
        spec_read_frames(spec_frames(fs)) == Some(fs),
    decreases fs.len(),
{
    if fs.len() > 0 {
        let h = fs[0].0;
        let p = fs[0].1;
        let tail = fs.drop_first();
        assert forall|i: int| 0 <= i < tail.len() implies (#[trigger] tail[i]).0.size
            == tail[i].1.len() by {
            assert(tail[i] == fs[i + 1]);
        }
        lemma_frames_roundtrip(tail);
        let e = spec_encode_header(h);
        let rest = spec_frames(tail);
        let b = spec_frames(fs);
        lemma_header_decode_encode(h);
        assert(b =~= e + p + rest);
        assert(b.subrange(0, 32) =~= e);
        assert(e.subrange(0, 32) =~= e);
        header::lemma_header_decode_prefix(b, e);
        lemma_read_frames_step(b, h, p, rest);
        assert(seq![(h, p)] + tail =~= fs);
    }
}

/// The checksum of a payload, written back as four little-endian bytes, is
/// the first four bytes of the SHA-256 digest of the whole payload.
pub proof fn lemma_checksum_is_digest_prefix(payload: Seq<u8>)
    requires
        spec_sha256(payload).len() >= 4,
    ensures
        crate::bytes::le_encode(payload_checksum(payload) as nat, 4) == spec_sha256(
            payload,
        ).subrange(0, 4),
{
    let d = spec_sha256(payload).subrange(0, 4);
    crate::bytes::lemma_le_decode_bound(d);
    reveal_with_fuel(crate::bytes::pow256, 5);
    crate::bytes::lemma_le_encode_decode(d);
}

/// Two payloads get the same checksum exactly when the SHA-256 digests of the
/// whole payloads agree in their first four bytes; so does the header of a
/// packet framed around them.
pub proof fn lemma_checksums_agree(p: Seq<u8>, q: Seq<u8>, ct: ContentType, session_id: u64)
    requires
        spec_sha256(p).len() >= 4,
        spec_sha256(q).len() >= 4,
    ensures
        (payload_checksum(p) == payload_checksum(q)) <==> (spec_sha256(p).subrange(0, 4)
            == spec_sha256(q).subrange(0, 4)),
        framed_header(ct, p, session_id).checksum == payload_checksum(p),
{
    lemma_checksum_is_digest_prefix(p);
    lemma_checksum_is_digest_prefix(q);
}

} // verus!
