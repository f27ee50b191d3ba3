//! The identification of peer connections.
use crate::shared::ip_address::SocketAddress;
use vstd::prelude::*;

verus! {

/// The manager of the TCP connections to the peers.
pub struct PeerConnectionManager {}

/// A peer connection, by its local and its remote socket address.
pub struct PeerIdentification {
    pub local_address: SocketAddress,
    pub remote_address: SocketAddress,
}

} // verus!
