//! Header extensions that may follow the fixed header.

use vstd::prelude::*;
use crate::protocol::proof_of_work::PoWExt;

verus! {

/// An extension of the header. On the wire it is a tuple of a discriminant byte
/// (0 for proof of work) and the extension's fields; the serde impls that write
/// and read it live with the application.
#[derive(Debug, Clone, Copy, PartialEq, Eq, Structural)]
pub enum HeaderExt {
    PoW(PoWExt),
}

impl HeaderExt {
    /// The discriminant byte of the extension on the wire.
    pub fn discriminant(&self) -> (d: u8)
        ensures
            d == 0,
    {
        match self {
            HeaderExt::PoW(_) => 0,
        }
    }
}

} // verus!
