//! Error kinds shared by peer parsing and the network protocol.

use vstd::prelude::*;
use vstd::string::StringExecFns;

verus! {

/// Why a `peer://<public key>@<address>` URI was refused.
#[derive(Debug, Clone, Copy, PartialEq, Eq, Structural)]
pub enum PeerParseError {
    MissingScheme,
    MissingAtSign,
    EmptyPublicKey,
    InvalidPublicKeyHex,
    InvalidAddr,
}

impl PeerParseError {
    /// The human-readable message of the error.
    pub fn to_string(&self) -> (s: String)
        ensures
            s@ == match self {
                PeerParseError::MissingScheme => "missing 'peer://' scheme"@,
                PeerParseError::MissingAtSign => "missing '@' between public key and address"@,
                PeerParseError::EmptyPublicKey => "public key is empty"@,
                PeerParseError::InvalidPublicKeyHex => "public key must be hex (0-9a-fA-F)"@,
                PeerParseError::InvalidAddr => "invalid address"@,
            },
    {
        match self {
            PeerParseError::MissingScheme => String::from_str("missing 'peer://' scheme"),
            PeerParseError::MissingAtSign => String::from_str(
                "missing '@' between public key and address",
            ),
            PeerParseError::EmptyPublicKey => String::from_str("public key is empty"),
            PeerParseError::InvalidPublicKeyHex => String::from_str(
                "public key must be hex (0-9a-fA-F)",
            ),
            PeerParseError::InvalidAddr => String::from_str("invalid address"),
        }
    }
}

/// Errors a peer reports back over the network.
#[derive(Debug, Clone, Copy, PartialEq, Eq, Structural)]
pub enum NetworkError {
    HandshakeRequired,
    Block404,
}

impl NetworkError {
    /// The human-readable message of the error.
    pub fn to_string(&self) -> (s: String)
        ensures
            s@ == match self {
                NetworkError::HandshakeRequired => "Handshake required to stablish a connection"@,
                NetworkError::Block404 => "Block not found in our chian"@,
            },
    {
        match self {
            NetworkError::HandshakeRequired => String::from_str(
                "Handshake required to stablish a connection",
            ),
            NetworkError::Block404 => String::from_str("Block not found in our chian"),
        }
    }
}

} // verus!
