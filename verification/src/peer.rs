//! Cluster members, identified by their network address.

use vstd::prelude::*;

verus! {

/// A socket address as plain numbers: an IPv4 or IPv6 host and a port.
///
/// Two addresses are equal exactly when every component is equal, which is
/// how socket addresses compare.
#[derive(Clone, Copy, Debug, PartialEq, Eq, Hash, Structural)]
pub enum Address {
    /// An IPv4 host, its four octets in network order as one number.
    V4 { ipv4: u32, port: u16 },
    /// An IPv6 host, its sixteen octets in network order as one number,
    /// with the flow information and scope identifier of the address.
    V6 { ipv6: u128, port: u16, flowinfo: u32, scope_id: u32 },
}

/// One cluster member. Peers are equal iff their addresses are equal.
#[derive(Clone, Copy, Debug, PartialEq, Eq, Hash, Structural)]
pub struct Peer {
    pub address: Address,
}

impl Peer {
    /// The peer that listens on `address`.
    pub fn new(address: Address) -> (peer: Peer)
        ensures
            peer.address == address,
    {
        Peer { address }
    }

    /// Whether `self` and `other` are the same cluster member, which is when
    /// their addresses are equal.
    pub fn same_as(&self, other: &Peer) -> (same: bool)
        ensures
            same == (self.address == other.address),
    {
        *self == *other
    }
}

} // verus!
