//! Choosing the local port for a session's upstream socket.  The relay does
//! not know which interface the upstream server is reachable through, so each
//! session binds a wildcard address with a randomly drawn local port outside
//! the well-known range.

use vstd::prelude::*;

verus! {

/// The smallest local port an upstream socket may be bound to: everything
/// below is reserved for well-known services.
pub const MIN_EPHEMERAL_PORT: u16 = 1024;

/// Relies on rand::random: draws a value of any type whose standard
/// distribution exists.  Nothing is assumed of the value drawn.
pub assume_specification<T>[ rand::random::<T> ]() -> (r: T)
    where
        rand::distributions::Standard: rand::distributions::Distribution<T>,
;

/// The local port for a fresh session's upstream socket: randomly drawn, and
/// never inside the well-known range, whatever the generator returned.
pub fn ephemeral_port() -> (p: u16)
    ensures
        MIN_EPHEMERAL_PORT <= p,
{
    let r: u16 = rand::random::<u16>();
    MIN_EPHEMERAL_PORT + r % (u16::MAX - MIN_EPHEMERAL_PORT + 1)
}

} // verus!
