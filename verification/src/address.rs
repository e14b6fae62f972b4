//! Socket addresses of peers, held as plain numbers.

use vstd::prelude::*;

verus! {

/// An IPv4 or IPv6 socket address: the address bits (most significant byte
/// first, as `Ipv4Addr::to_bits` and `Ipv6Addr::to_bits` give them) and the port;
/// an IPv6 address also carries its flow info and scope id.
#[derive(Debug, Clone, Copy, PartialEq, Eq, Structural)]
pub enum SocketAddress {
    V4 { ip: u32, port: u16 },
    V6 { ip: u128, port: u16, flowinfo: u32, scope_id: u32 },
}

impl SocketAddress {
    /// `0.0.0.0:<port>`, the address a node listens on.
    pub fn unspecified_v4(port: u16) -> (a: SocketAddress)
        ensures
            a == (SocketAddress::V4 { ip: 0, port }),
    {
        SocketAddress::V4 { ip: 0, port }
    }

    pub open spec fn spec_port(self) -> u16 {
        match self {
            SocketAddress::V4 { port, .. } => port,
            SocketAddress::V6 { port, .. } => port,
        }
    }

    /// The port of the address.
    pub fn port(&self) -> (p: u16)
        ensures
            p == self.spec_port(),
    {
        match self {
            SocketAddress::V4 { port, .. } => *port,
            SocketAddress::V6 { port, .. } => *port,
        }
    }

    /// Whether two addresses are the same: same family, bits, port and, for
    /// IPv6, flow info and scope id.
    pub fn same_as(&self, other: &SocketAddress) -> (b: bool)
        ensures
            b == (*self == *other),
    {
        match (self, other) {
            (SocketAddress::V4 { ip: a, port: p }, SocketAddress::V4 { ip: b, port: q }) => *a == *b
                && *p == *q,
            (
                SocketAddress::V6 { ip: a, port: p, flowinfo: f, scope_id: s },
                SocketAddress::V6 { ip: b, port: q, flowinfo: g, scope_id: t },
            ) => *a == *b && *p == *q && *f == *g && *s == *t,
            _ => false,
        }
    }
}

} // verus!
