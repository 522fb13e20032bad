//! The identity of a client: the (IPv4 address, UDP port) pair under which
//! the relay first observed it.  It is the key of every session lookup.

use vstd::prelude::*;

verus! {

/// A client's address as the relay sees it: the IPv4 address packed into a
/// `u32` (network order, most significant octet first) and the UDP source
/// port.  Immutable once observed.
#[derive(Clone, Copy, PartialEq, Eq, Structural, Hash, Debug)]
pub struct ClientAddr {
    pub ip: u32,
    pub port: u16,
}

impl ClientAddr {
    pub fn new(ip: u32, port: u16) -> (r: ClientAddr)
        ensures
            r.ip == ip,
            r.port == port,
    {
        ClientAddr { ip, port }
    }
}

} // verus!
