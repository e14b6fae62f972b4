//! Public keys of peers.

use vstd::prelude::*;
use crate::errors::PeerParseError;
use crate::text::{all_hex, all_hex_exec, chars_of};

verus! {

/// A lowercase hexadecimal digit: `0-9` or `a-f`.
pub open spec fn is_lower_hex_digit(c: char) -> bool {
    ('0' <= c && c <= '9') || ('a' <= c && c <= 'f')
}

/// The text of a random (version 4) UUID in hyphenated lowercase form:
/// 36 characters, hyphens at 8, 13, 18 and 23, lowercase hex digits elsewhere,
/// and the version digit `4` at 14.
pub open spec fn is_uuid_v4_text(s: Seq<char>) -> bool {
    &&& s.len() == 36
    &&& forall|i: int|
        0 <= i < 36 ==> if i == 8 || i == 13 || i == 18 || i == 23 {
            #[trigger] s[i] == '-'
        } else {
            is_lower_hex_digit(s[i])
        }
    &&& s[14] == '4'
}

/// Calls `uuid::Uuid::new_v4` and renders the result with `to_string`. The uuid
/// source formats a `Uuid` through `LowerHex` of its hyphenated form (8-4-4-4-12
/// lowercase hex digits), and `new_v4` sets the version nibble to 4. Which
/// random bits fill the rest is not stated.
#[verifier::external_body]
pub(crate) fn random_uuid_string() -> (s: String)
    ensures
        is_uuid_v4_text(s@),
{
    uuid::Uuid::new_v4().to_string()
}

/// The public key of a peer, kept as its text.
#[derive(Debug, Hash, PartialEq, Eq)]
pub struct PublicKey(String);

impl View for PublicKey {
    type V = Seq<char>;

    closed spec fn view(&self) -> Seq<char> {
        self.0@
    }
}

impl Clone for PublicKey {
    fn clone(&self) -> (r: Self)
        ensures
            r@ == self@,
    {
        PublicKey(self.0.clone())
    }
}

/// What `PublicKey::from_string` accepts: a non-empty string of hexadecimal digits.
pub open spec fn spec_public_key_check(pk: Seq<char>) -> Result<(), PeerParseError> {
    if pk.len() == 0 {
        Err(PeerParseError::EmptyPublicKey)
    } else if !all_hex(pk) {
        Err(PeerParseError::InvalidPublicKeyHex)
    } else {
        Ok(())
    }
}

impl PublicKey {
    /// A placeholder key: the text of a fresh random UUID.
    pub fn new_dummy() -> (k: Self)
        ensures
            is_uuid_v4_text(k@),
    {
        PublicKey(random_uuid_string())
    }

    /// Checks `pk` and wraps it as a key: it must be non-empty and all hexadecimal digits.
    pub fn from_string(pk: &str) -> (r: Result<Self, PeerParseError>)
        ensures
            match (r, spec_public_key_check(pk@)) {
                (Ok(k), Ok(_)) => k@ == pk@,
                (Err(e), Err(f)) => e == f,
                _ => false,
            },
    {
        let cs = chars_of(pk);
        if cs.len() == 0 {
            return Err(PeerParseError::EmptyPublicKey);
        }
        assert(cs@.subrange(0, cs@.len() as int) =~= cs@);
        if !all_hex_exec(cs.as_slice(), 0, cs.len()) {
            return Err(PeerParseError::InvalidPublicKeyHex);
        }
        Ok(PublicKey(pk.to_owned()))
    }

    /// A key holding `text` as it is, unchecked: for keys read back from the
    /// wire and for placeholder keys.
    pub fn from_raw(text: String) -> (k: Self)
        ensures
            k@ == text@,
    {
        PublicKey(text)
    }

    /// The text of the key.
    pub fn as_str(&self) -> (s: &str)
        ensures
            s@ == self@,
    {
        self.0.as_str()
    }

    /// The text of the key, as its `Display` shows it.
    pub fn to_string(&self) -> (s: String)
        ensures
            s@ == self@,
    {
        self.0.clone()
    }
}

} // verus!
