//! The router and peer configuration as a configuration file states them, and their
//! conversion into the configuration the router engine runs with.
use crate::shared::as_number::AsNumber;
use crate::shared::error::Error;
use crate::shared::ip_address::{socket_text, SocketAddress};
use crate::shared::network::socket_addr_spec::{refusal, spec_socket_address, SocketAddressSpec};
use crate::shared::router_configuration::{new_peer_id, PeerConfiguration, RouterConfiguration};
use crate::shared::text::{append_str, dec_text};
use uuid::Uuid;
use vstd::prelude::*;

verus! {

/// The port number of BGP-4, used where a configured address names none.
pub const BGP4_DEFAULT_PORT_NUMBER: u16 = 179;

/// The configuration file's contents: the local AS number and the peers.
#[derive(Default)]
pub struct EngineConfigFile {
    pub local_as: AsNumber,
    pub peers: Vec<PeerConfigFile>,
}

/// One peer as the configuration file states it.
#[derive(Default)]
pub struct PeerConfigFile {
    pub peer_as: AsNumber,
    pub peer_name: String,
    pub peer_address: SocketAddressSpec,
    pub local_address: SocketAddressSpec,
}

impl PeerConfigFile {
    /// The local socket address, with the BGP-4 port where none is given.
    pub open spec fn spec_local(&self) -> Option<SocketAddress> {
        self.local_address.spec_with_default_port(BGP4_DEFAULT_PORT_NUMBER).spec_address()
    }

    /// The remote socket address, with the BGP-4 port where none is given.
    pub open spec fn spec_remote(&self) -> Option<SocketAddress> {
        self.peer_address.spec_with_default_port(BGP4_DEFAULT_PORT_NUMBER).spec_address()
    }

    /// The entry converts: both addresses are acceptable and on different hosts.
    pub open spec fn converts(&self) -> bool {
        &&& self.spec_local() is Some
        &&& self.spec_remote() is Some
        &&& self.spec_local()->0.ip != self.spec_remote()->0.ip
    }

    /// The error with which the entry is refused: the local address's refusal first,
    /// then the peer address's, and where both addresses name the same host an invalid
    /// address naming the local socket address.
    pub open spec fn refused_with(&self, e: Error) -> bool {
        if self.spec_local() is None {
            refusal(e, self.local_address.spec_ip_address())
        } else if self.spec_remote() is None {
            refusal(e, self.peer_address.spec_ip_address())
        } else {
            e matches Error::InvalidIpAddressError { ip_address } && ip_address@ == socket_text(
                self.spec_local()->0,
            )
        }
    }

    /// `pc` is what the entry converts into, whatever its identifier.
    pub open spec fn converted_to(&self, pc: &PeerConfiguration) -> bool {
        &&& self.converts()
        &&& pc.peer_name@ == self.peer_name@
        &&& pc.remote_as_number == self.peer_as
        &&& Some(pc.local_address) == self.spec_local()
        &&& Some(pc.remote_address) == self.spec_remote()
    }

    /// The text describing this entry.
    pub open spec fn spec_text(&self) -> Seq<char> {
        "Peer name "@ + self.peer_name@ + ", Peer AS "@ + dec_text(self.peer_as.value())
            + ", Local address "@ + self.local_address.spec_text() + ", peer address "@
            + self.peer_address.spec_text()
    }

    /// What a converting entry gives: two socket addresses on different hosts, each with
    /// the port number given or else the BGP-4 port, neither a multicast address, and a
    /// loopback address only where its specification allows one.
    pub proof fn lemma_converted_addresses(&self)
        ensures
            self.converts() ==> {
                let l = self.spec_local()->0;
                let p = self.spec_remote()->0;
                &&& l.ip != p.ip
                &&& l.port == self.local_address.spec_port_number().unwrap_or(
                    BGP4_DEFAULT_PORT_NUMBER,
                )
                &&& p.port == self.peer_address.spec_port_number().unwrap_or(
                    BGP4_DEFAULT_PORT_NUMBER,
                )
                &&& !l.ip.spec_is_multicast() && !p.ip.spec_is_multicast()
                &&& l.ip.spec_is_loopback() ==> self.local_address.spec_localhost_allowed()
                &&& p.ip.spec_is_loopback() ==> self.peer_address.spec_localhost_allowed()
            },
    {
        self.local_address.lemma_default_port_in_address(BGP4_DEFAULT_PORT_NUMBER);
        self.peer_address.lemma_default_port_in_address(BGP4_DEFAULT_PORT_NUMBER);
        self.local_address.lemma_with_default_port(BGP4_DEFAULT_PORT_NUMBER);
        self.peer_address.lemma_with_default_port(BGP4_DEFAULT_PORT_NUMBER);
    }

    /// How an entry converts: each address converts as its specification with the BGP-4
    /// port where it gives none; the entry converts exactly when both do and they name
    /// different hosts, into a configuration carrying its name, its AS number and those
    /// two addresses; a refusal carries the local address's error first, then the peer
    /// address's, then an invalid-address error naming the local socket address.
    pub proof fn lemma_entry_conversion(&self, pc: PeerConfiguration, e: Error)
        ensures
            self.spec_local() == spec_socket_address(
                self.local_address.spec_ip_address(),
                Some(self.local_address.spec_port_number().unwrap_or(179)),
                self.local_address.spec_localhost_allowed(),
            ),
            self.spec_remote() == spec_socket_address(
                self.peer_address.spec_ip_address(),
                Some(self.peer_address.spec_port_number().unwrap_or(179)),
                self.peer_address.spec_localhost_allowed(),
            ),
            self.converts() <==> (self.spec_local() is Some && self.spec_remote() is Some
                && self.spec_local()->0.ip != self.spec_remote()->0.ip),
            self.converted_to(&pc) <==> (self.converts() && pc.peer_name@ == self.peer_name@
                && pc.remote_as_number == self.peer_as && pc.local_address
                == self.spec_local()->0 && pc.remote_address == self.spec_remote()->0),
            self.spec_local() is None ==> (self.refused_with(e) <==> refusal(
                e,
                self.local_address.spec_ip_address(),
            )),
            (self.spec_local() is Some && self.spec_remote() is None) ==> (self.refused_with(e)
                <==> refusal(e, self.peer_address.spec_ip_address())),
            (self.spec_local() is Some && self.spec_remote() is Some) ==> (self.refused_with(e)
                <==> (e matches Error::InvalidIpAddressError { ip_address } && ip_address@
                == socket_text(self.spec_local()->0))),
    {
        self.local_address.lemma_with_default_port(BGP4_DEFAULT_PORT_NUMBER);
        self.peer_address.lemma_with_default_port(BGP4_DEFAULT_PORT_NUMBER);
    }

    /// The local and remote socket addresses of the entry, checked.
    fn addresses(&self) -> (r: Result<(SocketAddress, SocketAddress), Error>)
        ensures
            r is Ok <==> self.converts(),
            r matches Ok((l, p)) ==> Some(l) == self.spec_local() && Some(p)
                == self.spec_remote(),
            r matches Err(e) ==> self.refused_with(e),
    {
        let local_address = match self.local_address.to_socket_address_with_default_port(
            BGP4_DEFAULT_PORT_NUMBER,
        ) {
            Ok(a) => a,
            Err(err) => {
                return Err(err);
            },
        };
        let remote_address = match self.peer_address.to_socket_address_with_default_port(
            BGP4_DEFAULT_PORT_NUMBER,
        ) {
            Ok(a) => a,
            Err(err) => {
                return Err(err);
            },
        };
        if local_address.ip.same_as(&remote_address.ip) {
            return Err(Error::InvalidIpAddressError { ip_address: local_address.to_text() });
        }
        Ok((local_address, remote_address))
    }

    /// Converts the entry into a peer configuration with the identifier `peer_id`.
    /// Each address takes the BGP-4 port where it names none and must be acceptable;
    /// the two addresses must name different hosts.
    pub fn try_into_with_peer_id(self, peer_id: Uuid) -> (r: Result<PeerConfiguration, Error>)
        ensures
            r is Ok <==> self.converts(),
            r matches Ok(pc) ==> self.converted_to(&pc) && pc.peer_id == peer_id,
            r matches Err(e) ==> self.refused_with(e),
    {
        match self.addresses() {
            Ok((local_address, remote_address)) => Ok(
                PeerConfiguration {
                    peer_id,
                    peer_name: self.peer_name.clone(),
                    remote_as_number: self.peer_as,
                    remote_address,
                    local_address,
                },
            ),
            Err(err) => Err(err),
        }
    }

    /// Converts the entry into a peer configuration with a fresh identifier, as
    /// `try_into_with_peer_id` states; the identifier is drawn only on success.
    pub fn try_into(self) -> (r: Result<PeerConfiguration, Error>)
        ensures
            r is Ok <==> self.converts(),
            r matches Ok(pc) ==> self.converted_to(&pc),
            r matches Err(e) ==> self.refused_with(e),
    {
        self.convert()
    }

    /// The conversion of `try_into`, read from a reference.
    fn convert(&self) -> (r: Result<PeerConfiguration, Error>)
        ensures
            r is Ok <==> self.converts(),
            r matches Ok(pc) ==> self.converted_to(&pc),
            r matches Err(e) ==> self.refused_with(e),
    {
        match self.addresses() {
            Ok((local_address, remote_address)) => {
                let peer_id = new_peer_id();
                Ok(
                    PeerConfiguration {
                        peer_id,
                        peer_name: self.peer_name.clone(),
                        remote_as_number: self.peer_as,
                        remote_address,
                        local_address,
                    },
                )
            },
            Err(err) => Err(err),
        }
    }

    /// The text describing this entry: its name, AS number and both addresses.
    pub fn to_text(&self) -> (s: String)
        ensures
            s@ == self.spec_text(),
    {
        let mut s = String::new();
        append_str(&mut s, "Peer name ");
        append_str(&mut s, self.peer_name.as_str());
        append_str(&mut s, ", Peer AS ");
        let t = self.peer_as.to_text();
        append_str(&mut s, t.as_str());
        append_str(&mut s, ", Local address ");
        let t = self.local_address.to_text();
        append_str(&mut s, t.as_str());
        append_str(&mut s, ", peer address ");
        let t = self.peer_address.to_text();
        append_str(&mut s, t.as_str());
        assert(s@ =~= self.spec_text());
        s
    }
}

impl EngineConfigFile {
    /// Every peer entry converts.
    pub open spec fn converts(&self) -> bool {
        forall|k: int| 0 <= k < self.peers@.len() ==> #[trigger] self.peers@[k].converts()
    }

    /// `rc` is what the file converts into: the same local AS number, and each peer
    /// entry converted, in order.
    pub open spec fn converted_to(&self, rc: &RouterConfiguration) -> bool {
        &&& rc.local_as_number == self.local_as
        &&& rc.peer_configurations@.len() == self.peers@.len()
        &&& forall|k: int|
            0 <= k < self.peers@.len() ==> #[trigger] self.peers@[k].converted_to(
                &rc.peer_configurations@[k],
            )
    }

    /// The error with which the file is refused: that of its first refused entry.
    pub open spec fn refused_with(&self, e: Error) -> bool {
        exists|k: int|
            0 <= k < self.peers@.len() && (forall|j: int| 0 <= j < k ==> #[trigger] self.peers@[j].converts())
                && !self.peers@[k].converts() && #[trigger] self.peers@[k].refused_with(e)
    }

    /// A file converts exactly when each of its entries does, into a configuration with
    /// its local AS number and one converted entry per entry, in order.
    pub proof fn lemma_file_conversion(&self, rc: RouterConfiguration)
        ensures
            self.converts() <==> (forall|k: int|
                0 <= k < self.peers@.len() ==> #[trigger] self.peers@[k].converts()),
            self.converted_to(&rc) ==> rc.local_as_number == self.local_as
                && rc.peer_configurations@.len() == self.peers@.len() && (forall|k: int|
                0 <= k < self.peers@.len() ==> #[trigger] self.peers@[k].converted_to(
                    &rc.peer_configurations@[k],
                )),
    {
    }

    /// Converts the file into the router configuration: every peer entry is converted
    /// in order, each with a fresh identifier, and the first entry refused refuses the
    /// whole file with its error.
    pub fn try_into(self) -> (r: Result<RouterConfiguration, Error>)
        ensures
            r is Ok <==> self.converts(),
            r matches Ok(rc) ==> self.converted_to(&rc),
            r matches Err(e) ==> self.refused_with(e),
    {
        let mut peers: Vec<PeerConfiguration> = Vec::new();
        let n = self.peers.len();
        let mut i: usize = 0;
        while i < n
            invariant
                n == self.peers@.len(),
                i <= n,
                peers@.len() == i,
                forall|j: int| 0 <= j < i ==> #[trigger] self.peers@[j].converted_to(&peers@[j]),
            decreases n - i,
        {
            match self.peers[i].convert() {
                Ok(peer) => {
                    peers.push(peer);
                },
                Err(err) => {
                    assert forall|j: int| 0 <= j < i implies #[trigger] self.peers@[j].converts() by {
                        assert(self.peers@[j].converted_to(&peers@[j]));
                    }
                    assert(!self.converts());
                    return Err(err);
                },
            }
            i = i + 1;
        }
        assert forall|k: int| 0 <= k < self.peers@.len() implies #[trigger] self.peers@[k].converts() by {
            assert(self.peers@[k].converted_to(&peers@[k]));
        }
        Ok(RouterConfiguration { local_as_number: self.local_as, peer_configurations: peers })
    }
}

} // verus!
