//! Handshake-only discovery of peers that share a sub-protocol with this node.
//!
//! The crate holds the decisions of the client: which configured nodes are
//! valid, how one handshake proceeds from event to event, which capabilities
//! two nodes have in common, and which peers a run reports. Opening sockets
//! and encrypting frames is left to the caller, who performs the requests the
//! handshake hands out and feeds the outcomes back in.

pub mod capability;
pub mod cfg;
pub mod client;
pub mod handshake;
pub mod message;
pub mod transport;
