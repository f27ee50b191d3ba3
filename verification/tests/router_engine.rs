use bgp4rs::router_engine::main_router_engine::{
    event_loop_step, peers_passing_local_address_rule, verify_local_address_rule, EventLoopStep,
    RouterControlVerb, RouterStatusVerb,
};
use bgp4rs::shared::as_number::AsNumber;
use bgp4rs::shared::ip_address::{IpAddress, SocketAddress};
use bgp4rs::shared::network::local_address_matcher::HostInterfacesLocalAddressMatcher;
use bgp4rs::shared::router_configuration::{PeerConfiguration, RouterConfiguration};

fn peer(name: &str, local: [u8; 4], remote: [u8; 4]) -> PeerConfiguration {
    PeerConfiguration {
        peer_id: uuid::Uuid::nil(),
        peer_name: name.to_string(),
        local_address: SocketAddress { ip: IpAddress::V4(local), port: 179 },
        remote_address: SocketAddress { ip: IpAddress::V4(remote), port: 179 },
        remote_as_number: AsNumber::Small(1),
    }
}

fn matcher() -> HostInterfacesLocalAddressMatcher {
    HostInterfacesLocalAddressMatcher::new(vec![
        IpAddress::V4([127, 0, 0, 1]),
        IpAddress::V4([192, 168, 2, 2]),
        IpAddress::V6([0, 0, 0, 0, 0, 0, 0, 1]),
    ])
}

#[test]
fn matcher_finds_host_addresses() {
    let m = matcher();
    assert!(m.is_local_address(&IpAddress::V4([192, 168, 2, 2])));
    assert!(!m.is_local_address(&IpAddress::V4([192, 168, 2, 3])));
    assert!(m.is_local_socket_address(&SocketAddress { ip: IpAddress::V6([0, 0, 0, 0, 0, 0, 0, 1]), port: 1 }));
}

#[test]
fn local_address_rule() {
    let m = matcher();
    assert!(verify_local_address_rule(&peer("a", [192, 168, 2, 2], [192, 168, 1, 1]), &m));
    assert!(!verify_local_address_rule(&peer("b", [192, 168, 9, 9], [192, 168, 1, 1]), &m));
    assert!(!verify_local_address_rule(&peer("c", [192, 168, 2, 2], [127, 0, 0, 1]), &m));
}

#[test]
fn initial_configuration_keeps_passing_peers_in_order() {
    let m = matcher();
    let config = RouterConfiguration {
        local_as_number: AsNumber::Small(2),
        peer_configurations: vec![
            peer("a", [192, 168, 2, 2], [192, 168, 1, 1]),
            peer("b", [192, 168, 9, 9], [192, 168, 1, 1]),
            peer("c", [192, 168, 2, 2], [192, 168, 1, 3]),
            peer("d", [192, 168, 2, 2], [192, 168, 2, 2]),
        ],
    };
    let taken = peers_passing_local_address_rule(config, &m);
    let names: Vec<&str> = taken.iter().map(|p| p.peer_name.as_str()).collect();
    assert_eq!(names, vec!["a", "c"]);
}

#[test]
fn event_loop_ends_on_stop_or_closed_channel() {
    assert_eq!(event_loop_step(&None), EventLoopStep::Exit);
    assert_eq!(event_loop_step(&Some(RouterControlVerb::StopRouting)), EventLoopStep::Exit);
    assert_eq!(event_loop_step(&Some(RouterControlVerb::StartRouting)), EventLoopStep::Continue);
    assert_eq!(
        event_loop_step(&Some(RouterControlVerb::RemovePeer(uuid::Uuid::nil()))),
        EventLoopStep::Continue
    );
    assert_eq!(
        event_loop_step(&Some(RouterControlVerb::AddPeer(peer("a", [1, 1, 1, 1], [2, 2, 2, 2])))),
        EventLoopStep::Continue
    );
}

#[test]
fn status_verb_text() {
    assert_eq!(RouterStatusVerb::Terminated.to_text(), "Terminated");
}
