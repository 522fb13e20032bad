//! Session-management core of a UDP relay: a single client-facing socket is
//! multiplexed over many transient clients, each of which gets its own
//! upstream channel.  The library holds the state and the decisions — the
//! registry of live sessions, per-client FIFO queues, idle detection, the
//! stale-session race, and response routing — as verified data structures;
//! the sockets and threads around them are ordinary glue.

pub mod addr;
pub mod config;
pub mod laws;
pub mod outbound;
pub mod registry;
pub mod session;
pub mod upstream;

pub use addr::ClientAddr;
pub use config::{from_file, to_file, Config};
pub use outbound::{OutboundItem, OutboundQueue};
pub use registry::{Registry, RouteOutcome};
pub use session::Session;
pub use upstream::ephemeral_port;
