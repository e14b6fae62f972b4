//! Byte-level conversions a type may offer.

use vstd::prelude::*;

verus! {

/// Raw bytes.
pub type Bytes = Vec<u8>;

/// A type that can be turned into bytes and read back from them.
pub trait ByteSerialize: Sized {
    fn to_bytes(&self) -> Bytes;

    fn from_bytes(bytes: Bytes) -> Self;
}

} // verus!
