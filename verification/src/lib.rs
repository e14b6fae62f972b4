//! A peer-to-peer blockchain node library: wire header codec, block hashing
//! and mining, peer URI parsing and the decisions of the network node.

pub mod address;
pub mod assoc;
pub mod block;
pub mod blockchain;
pub mod bootstrap;
pub mod bytes;
pub mod clargs;
pub mod config;
pub mod cli;
pub mod errors;
pub mod hashing;
pub mod keys;
pub mod logging;
pub mod networking;
pub mod peers;
pub mod protocol;
pub mod text;
pub mod types;
pub mod utils;

use vstd::prelude::*;

verus! {

} // verus!
