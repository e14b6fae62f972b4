//! SHA-256 digests, the one cryptographic primitive of the node.

use vstd::prelude::*;
use sha2::Digest;

verus! {

/// The SHA-256 digest of `data`.
pub uninterp spec fn spec_sha256(data: Seq<u8>) -> Seq<u8>;

/// Calls `sha2::Sha256::digest`, which feeds `data` to a fresh hasher and
/// finalizes it. The digest is a function of `data` alone (named
/// `spec_sha256`) and, as `Sha256`'s output size is `U32`, 32 bytes long.
/// Feeding a hasher several pieces and finalizing gives the digest of their
/// concatenation, so callers hash the concatenated input once.
#[verifier::external_body]
pub(crate) fn sha256(data: &[u8]) -> (out: Vec<u8>)
    ensures
        out@ == spec_sha256(data@),
        out@.len() == 32,
{
    sha2::Sha256::digest(data).to_vec()
}

/// Calls `std::time::SystemTime::now` and `duration_since(UNIX_EPOCH)`: the
/// milliseconds since the Unix epoch (`as_millis`), or `None` when the system
/// clock reads before the epoch. Nothing is stated of the value.
#[verifier::external_body]
pub(crate) fn now_millis() -> (ms: Option<u128>) {
    match std::time::SystemTime::now().duration_since(std::time::UNIX_EPOCH) {
        Ok(d) => Some(d.as_millis()),
        Err(_) => None,
    }
}

/// The timestamp the node stamps things with, given a clock reading: the
/// reading, or 0 (the epoch itself) when the clock reads before the epoch.
pub fn timestamp_from_clock(reading: Option<u128>) -> (ms: u128)
    ensures
        ms == match reading {
            Some(m) => m,
            None => 0,
        },
{
    match reading {
        Some(m) => m,
        None => 0,
    }
}

} // verus!
