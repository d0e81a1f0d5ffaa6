//! Network addresses as plain numbers.
use vstd::prelude::*;

verus! {

/// The address of a socket. The numbers of an IP address are its octets, most
/// significant first.
#[derive(Clone, Copy, Debug, PartialEq, Eq, Structural)]
pub enum SocketAddr {
    V4 { ipv4: u32, port: u16 },
    V6 { ipv6: u128, port: u16, flowinfo: u32, scope_id: u32 },
}

impl SocketAddr {
    /// The address `0.0.0.0`, with a port that the system picks.
    pub fn unspecified_v4() -> (addr: SocketAddr)
        ensures
            addr == (SocketAddr::V4 { ipv4: 0, port: 0 }),
    {
        SocketAddr::V4 { ipv4: 0, port: 0 }
    }

    /// The address `::`, with a port that the system picks.
    pub fn unspecified_v6() -> (addr: SocketAddr)
        ensures
            addr == (SocketAddr::V6 { ipv6: 0, port: 0, flowinfo: 0, scope_id: 0 }),
    {
        SocketAddr::V6 { ipv6: 0, port: 0, flowinfo: 0, scope_id: 0 }
    }

    /// Whether this is an IPv6 address.
    pub fn is_ipv6(&self) -> (yes: bool)
        ensures
            yes == (*self is V6),
    {
        match self {
            SocketAddr::V4 { .. } => false,
            SocketAddr::V6 { .. } => true,
        }
    }
}

} // verus!
