//! The configuration the router engine runs with: the local AS number and its peers.
use crate::shared::as_number::AsNumber;
use crate::shared::ip_address::{socket_text, SocketAddress};
use crate::shared::text::append_str;
use uuid::Uuid;
use vstd::prelude::*;

verus! {

/// The identifier type of peers, `uuid::Uuid`, carried through unchanged.
#[verifier::external_type_specification]
#[verifier::external_body]
pub struct ExUuid(uuid::Uuid);

/// A fresh identifier for a peer.
///
/// Calls `uuid::Uuid::new_v4`, which draws a random version-4 UUID from the operating
/// system's random number generator. Nothing is stated of the identifier: it rests on
/// chance, and `Uuid` is opaque here. (The call panics where the operating system
/// cannot deliver random bytes; that depends on the machine, not on any argument.)
#[verifier::external_body]
pub(crate) fn new_peer_id() -> (id: Uuid) {
    Uuid::new_v4()
}

/// The configuration of one peer.
#[derive(Debug)]
pub struct PeerConfiguration {
    pub peer_id: Uuid,
    pub peer_name: String,
    pub local_address: SocketAddress,
    pub remote_address: SocketAddress,
    pub remote_as_number: AsNumber,
}

/// The configuration of the router: the local AS number and the peers.
#[derive(Debug)]
pub struct RouterConfiguration {
    pub local_as_number: AsNumber,
    pub peer_configurations: Vec<PeerConfiguration>,
}

impl PeerConfiguration {
    /// The text describing this peer: its name, both addresses and its AS number.
    pub open spec fn spec_text(&self) -> Seq<char> {
        "Peer name: "@ + self.peer_name@ + ", local address "@ + socket_text(self.local_address)
            + ", remote address "@ + socket_text(self.remote_address) + ", remote peer AS "@
            + crate::shared::text::dec_text(self.remote_as_number.value())
    }

    /// The text describing this peer.
    pub fn to_text(&self) -> (s: String)
        ensures
            s@ == self.spec_text(),
    {
        let mut s = String::new();
        append_str(&mut s, "Peer name: ");
        append_str(&mut s, self.peer_name.as_str());
        append_str(&mut s, ", local address ");
        let t = self.local_address.to_text();
        append_str(&mut s, t.as_str());
        append_str(&mut s, ", remote address ");
        let t = self.remote_address.to_text();
        append_str(&mut s, t.as_str());
        append_str(&mut s, ", remote peer AS ");
        let t = self.remote_as_number.to_text();
        append_str(&mut s, t.as_str());
        assert(s@ =~= self.spec_text());
        s
    }
}

} // verus!
