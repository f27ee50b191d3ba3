//! The decisions of the main router engine: which configured peers it takes on, and
//! when its event loop ends.
use crate::shared::ip_address::IpAddress;
use crate::shared::network::local_address_matcher::HostInterfacesLocalAddressMatcher;
use crate::shared::router_configuration::{PeerConfiguration, RouterConfiguration};
use uuid::Uuid;
use vstd::prelude::*;

verus! {

/// The verbs that control the router engine's event loop.
#[derive(Debug)]
pub enum RouterControlVerb {
    StartRouting,
    StopRouting,
    AddPeer(PeerConfiguration),
    RemovePeer(Uuid),
}

/// The status the router engine reports.
#[derive(Clone, Copy, Debug, PartialEq, Eq, Structural)]
pub enum RouterStatusVerb {
    Terminated,
}

/// What the event loop does after a verb has arrived.
#[derive(Clone, Copy, Debug, PartialEq, Eq, Structural)]
pub enum EventLoopStep {
    /// Wait for the next verb.
    Continue,
    /// Leave the loop and report termination.
    Exit,
}

impl RouterStatusVerb {
    /// The name of the status.
    pub fn to_text(&self) -> (s: String)
        ensures
            s@ == "Terminated"@,
    {
        match self {
            RouterStatusVerb::Terminated => String::from_str("Terminated"),
        }
    }
}

/// The local address rule: the peer's local address belongs to one of the host's
/// interfaces, and its remote address does not.
pub open spec fn passes_local_address_rule(
    peer: PeerConfiguration,
    host_addresses: Seq<IpAddress>,
) -> bool {
    host_addresses.contains(peer.local_address.ip) && !host_addresses.contains(
        peer.remote_address.ip,
    )
}

/// The peers among `peers` that the engine takes on: those passing the local address
/// rule, in their order.
pub open spec fn taken_on(peers: Seq<PeerConfiguration>, host_addresses: Seq<IpAddress>) -> Seq<
    PeerConfiguration,
> {
    peers.filter(|p: PeerConfiguration| passes_local_address_rule(p, host_addresses))
}

/// Exactly the configured peers that pass the local address rule are taken on: each peer
/// taken on was configured and passes the rule, so its remote address is never one of
/// the host's; each configured peer that passes the rule is taken on.
pub proof fn lemma_peers_taken_on(peers: Seq<PeerConfiguration>, host_addresses: Seq<IpAddress>)
    ensures
        forall|k: int|
            0 <= k < taken_on(peers, host_addresses).len() ==> {
                let p = #[trigger] taken_on(peers, host_addresses)[k];
                &&& passes_local_address_rule(p, host_addresses)
                &&& host_addresses.contains(p.local_address.ip)
                &&& !host_addresses.contains(p.remote_address.ip)
                &&& peers.contains(p)
            },
        forall|k: int|
            0 <= k < peers.len() && host_addresses.contains(peers[k].local_address.ip)
                && !host_addresses.contains(peers[k].remote_address.ip)
                ==> #[trigger] taken_on(peers, host_addresses).contains(peers[k]),
        taken_on(peers, host_addresses).len() <= peers.len(),
{
    let pred = |p: PeerConfiguration| passes_local_address_rule(p, host_addresses);
    broadcast use vstd::seq_lib::group_filter_ensures;
    assert forall|k: int| 0 <= k < taken_on(peers, host_addresses).len() implies {
        let p = #[trigger] taken_on(peers, host_addresses)[k];
        &&& passes_local_address_rule(p, host_addresses)
        &&& host_addresses.contains(p.local_address.ip)
        &&& !host_addresses.contains(p.remote_address.ip)
        &&& peers.contains(p)
    } by {
        let p = peers.filter(pred)[k];
        assert(peers.filter(pred).contains(p));
        peers.lemma_filter_contains_rev(pred, p);
    }
    assert forall|k: int|
        0 <= k < peers.len() && host_addresses.contains(peers[k].local_address.ip)
            && !host_addresses.contains(peers[k].remote_address.ip) implies #[trigger] taken_on(
        peers,
        host_addresses,
    ).contains(peers[k]) by {
        peers.lemma_filter_contains(pred, k);
    }
}

/// A peer passes the local address rule exactly when its local address is one of the
/// host's addresses and its remote address is not, whatever the kind of address.
pub proof fn lemma_local_address_rule(peer: PeerConfiguration, host_addresses: Seq<IpAddress>)
    ensures
        passes_local_address_rule(peer, host_addresses) <==> (host_addresses.contains(
            peer.local_address.ip,
        ) && !host_addresses.contains(peer.remote_address.ip)),
{
}

/// Whether `peer_configuration` passes the local address rule on the host whose
/// interfaces `local_address_matcher` knows.
pub fn verify_local_address_rule(
    peer_configuration: &PeerConfiguration,
    local_address_matcher: &HostInterfacesLocalAddressMatcher,
) -> (r: bool)
    ensures
        r == passes_local_address_rule(*peer_configuration, local_address_matcher.spec_addresses()),
{
    local_address_matcher.is_local_address(&peer_configuration.local_address.ip)
        && !local_address_matcher.is_local_address(&peer_configuration.remote_address.ip)
}

/// The peers of the initial configuration that the engine takes on: those passing the
/// local address rule, in their configured order.
pub fn peers_passing_local_address_rule(
    router_configuration: RouterConfiguration,
    local_address_matcher: &HostInterfacesLocalAddressMatcher,
) -> (r: Vec<PeerConfiguration>)
    ensures
        r@ == taken_on(
            router_configuration.peer_configurations@,
            local_address_matcher.spec_addresses(),
        ),
{
    let ghost addrs = local_address_matcher.spec_addresses();
    let ghost pred = |p: PeerConfiguration| passes_local_address_rule(p, addrs);
    let ghost all = router_configuration.peer_configurations@;
    let mut rest = router_configuration.peer_configurations;
    let mut taken: Vec<PeerConfiguration> = Vec::new();
    let ghost mut i: int = 0;
    assert(all.take(0) =~= Seq::<PeerConfiguration>::empty());
    assert(all.skip(0) =~= all);
    while rest.len() > 0
        invariant
            addrs == local_address_matcher.spec_addresses(),
            pred == (|p: PeerConfiguration| passes_local_address_rule(p, addrs)),
            0 <= i <= all.len(),
            rest@ == all.skip(i),
            taken@ == all.take(i).filter(pred),
        decreases rest@.len(),
    {
        let peer = rest.remove(0);
        proof {
            assert(peer == all[i]);
            reveal_with_fuel(Seq::filter, 1);
            assert(all.take(i + 1).drop_last() =~= all.take(i));
            assert(rest@ =~= all.skip(i + 1));
        }
        if verify_local_address_rule(&peer, local_address_matcher) {
            taken.push(peer);
        }
        proof {
            i = i + 1;
        }
    }
    assert(all.take(i) =~= all);
    taken
}

/// What the event loop does on receiving `verb` (`None`: the control channel closed).
pub open spec fn spec_event_loop_step(verb: Option<RouterControlVerb>) -> EventLoopStep {
    if verb is None || verb matches Some(RouterControlVerb::StopRouting) {
        EventLoopStep::Exit
    } else {
        EventLoopStep::Continue
    }
}

/// The event loop ends on a stop verb and on a closed channel, and goes on after starting
/// the routing, adding a peer or removing one.
pub proof fn lemma_event_loop_ends(verb: Option<RouterControlVerb>)
    ensures
        match verb {
            None => spec_event_loop_step(verb) == EventLoopStep::Exit,
            Some(RouterControlVerb::StopRouting) => spec_event_loop_step(verb) == EventLoopStep::Exit,
            Some(RouterControlVerb::StartRouting) => spec_event_loop_step(verb)
                == EventLoopStep::Continue,
            Some(RouterControlVerb::AddPeer(_)) => spec_event_loop_step(verb) == EventLoopStep::Continue,
            Some(RouterControlVerb::RemovePeer(_)) => spec_event_loop_step(verb)
                == EventLoopStep::Continue,
        },
{
}

/// What the event loop does on receiving `verb`, where `None` means the control channel
/// has closed: it ends on a stop verb or a closed channel, and waits for the next verb
/// otherwise.
pub fn event_loop_step(verb: &Option<RouterControlVerb>) -> (r: EventLoopStep)
    ensures
        r == spec_event_loop_step(*verb),
{
    match verb {
        Some(RouterControlVerb::StopRouting) => EventLoopStep::Exit,
        Some(_) => EventLoopStep::Continue,
        None => EventLoopStep::Exit,
    }
}

} // verus!
