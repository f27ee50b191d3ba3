use bgp4rs::config_file::config_file_definition::{EngineConfigFile, PeerConfigFile};
use bgp4rs::config_file::config_file_provider::ConfigFileProvider;
use bgp4rs::shared::as_number::AsNumber;
use bgp4rs::shared::error::Error;
use bgp4rs::shared::ip_address::{IpAddress, SocketAddress};
use bgp4rs::shared::network::socket_addr_spec::SocketAddressSpec;

fn v4(a: u8, b: u8, c: u8, d: u8, port: u16) -> SocketAddress {
    SocketAddress { ip: IpAddress::V4([a, b, c, d]), port }
}

#[test]
fn should_convert_peer_config_file() {
    let peer_spec = PeerConfigFile {
        peer_as: AsNumber::Small(1234),
        peer_name: "Some peer".to_string(),
        peer_address: SocketAddressSpec::new(&"192.168.1.1", &None),
        local_address: SocketAddressSpec::new(&"192.168.2.2", &None),
    };

    match peer_spec.try_into() {
        Ok(peer_config) => {
            assert_eq!(peer_config.remote_as_number, AsNumber::Small(1234));
            assert_eq!(peer_config.peer_name, "Some peer".to_string());
            assert_eq!(peer_config.remote_address, v4(192, 168, 1, 1, 179));
            assert_eq!(peer_config.local_address, v4(192, 168, 2, 2, 179));
        }
        Err(err) => panic!("Received error: {err:?}"),
    }
}

#[test]
fn should_not_convert_peer_config_file_with_local_address_is_loopback() {
    let peer_spec = PeerConfigFile {
        peer_as: AsNumber::Small(1234),
        peer_name: "Some peer".to_string(),
        peer_address: SocketAddressSpec::new(&"192.168.1.1", &None),
        local_address: SocketAddressSpec::new(&"127.0.0.1", &None),
    };

    match peer_spec.try_into() {
        Ok(peer_config) => panic!("Should not convert to peer config {}", peer_config.to_text()),
        Err(_err) => {}
    }
}

#[test]
fn should_not_convert_peer_config_file_with_remote_address_is_loopback() {
    let peer_spec = PeerConfigFile {
        peer_as: AsNumber::Small(1234),
        peer_name: "Some peer".to_string(),
        peer_address: SocketAddressSpec::new(&"127.0.0.1", &None),
        local_address: SocketAddressSpec::new(&"192.168.2.2", &None),
    };

    match peer_spec.try_into() {
        Ok(peer_config) => panic!("Should not convert to peer config {}", peer_config.to_text()),
        Err(_err) => {}
    }
}

#[test]
fn should_not_convert_peer_config_file_with_equal_local_and_remote_address() {
    let peer_spec = PeerConfigFile {
        peer_as: AsNumber::Small(1234),
        peer_name: "Some peer".to_string(),
        peer_address: SocketAddressSpec::new(&"192.168.1.1", &None),
        local_address: SocketAddressSpec::new(&"192.168.1.1", &None),
    };

    match peer_spec.try_into() {
        Ok(peer_config) => panic!("Should not convert to peer config {}", peer_config.to_text()),
        Err(_err) => {}
    }
}

#[test]
fn should_convert_router_config_file() {
    let router_spec = EngineConfigFile {
        local_as: AsNumber::Small(2345),
        peers: vec![PeerConfigFile {
            peer_as: AsNumber::Small(1234),
            peer_name: "Some peer".to_string(),
            peer_address: SocketAddressSpec::new(&"192.168.1.1", &None),
            local_address: SocketAddressSpec::new(&"192.168.2.2", &None),
        }],
    };

    match router_spec.try_into() {
        Ok(router_config) => {
            assert_eq!(router_config.local_as_number, AsNumber::Small(2345));
            assert_eq!(router_config.peer_configurations.len(), 1);

            let peer_config = &router_config.peer_configurations[0];

            assert_eq!(peer_config.remote_as_number, AsNumber::Small(1234));
            assert_eq!(peer_config.peer_name, "Some peer".to_string());
            assert_eq!(peer_config.remote_address, v4(192, 168, 1, 1, 179));
            assert_eq!(peer_config.local_address, v4(192, 168, 2, 2, 179));
        }
        Err(err) => panic!("Received error: {err:?}"),
    }
}

#[test]
fn should_not_convert_router_config_file_with_equal_local_and_remote_address() {
    let router_spec = EngineConfigFile {
        local_as: AsNumber::Small(2345),
        peers: vec![PeerConfigFile {
            peer_as: AsNumber::Small(1234),
            peer_name: "Some peer".to_string(),
            peer_address: SocketAddressSpec::new(&"192.168.1.1", &None),
            local_address: SocketAddressSpec::new(&"192.168.1.1", &None),
        }],
    };

    match router_spec.try_into() {
        Ok(_router_config) => panic!("Should not convert to router configuration"),
        Err(_err) => {}
    }
}

#[test]
fn equal_addresses_are_refused_naming_the_local_socket_address() {
    let peer_spec = PeerConfigFile {
        peer_as: AsNumber::Small(1234),
        peer_name: "Some peer".to_string(),
        peer_address: SocketAddressSpec::new(&"192.168.1.1", &Some(1000)),
        local_address: SocketAddressSpec::new(&"192.168.1.1", &None),
    };
    match peer_spec.try_into() {
        Err(Error::InvalidIpAddressError { ip_address }) => {
            assert_eq!(ip_address, "192.168.1.1:179")
        }
        other => panic!("unexpected {:?}", other.map(|p| p.to_text())),
    }
}

#[test]
fn local_refusal_comes_before_peer_refusal() {
    let peer_spec = PeerConfigFile {
        peer_as: AsNumber::Small(1234),
        peer_name: "Some peer".to_string(),
        peer_address: SocketAddressSpec::new(&"garbage", &None),
        local_address: SocketAddressSpec::new(&"", &None),
    };
    match peer_spec.try_into() {
        Err(Error::InvalidIpAddressError { ip_address }) => assert_eq!(ip_address, ""),
        other => panic!("unexpected {:?}", other.map(|p| p.to_text())),
    }
}

#[test]
fn router_config_file_keeps_peer_order_and_stops_at_first_refusal() {
    let good = |name: &str, local: &str, remote: &str| PeerConfigFile {
        peer_as: AsNumber::Extended(70000),
        peer_name: name.to_string(),
        peer_address: SocketAddressSpec::new(&remote, &Some(1179)),
        local_address: SocketAddressSpec::new(&local, &None),
    };
    let router_spec = EngineConfigFile {
        local_as: AsNumber::Small(1),
        peers: vec![good("a", "10.0.0.1", "10.0.0.2"), good("b", "2001:db8::1", "2001:db8::2")],
    };
    let rc = router_spec.try_into().unwrap();
    assert_eq!(rc.peer_configurations.len(), 2);
    assert_eq!(rc.peer_configurations[0].peer_name, "a");
    assert_eq!(rc.peer_configurations[1].peer_name, "b");
    assert_eq!(rc.peer_configurations[1].remote_address.port, 1179);
    assert_eq!(rc.peer_configurations[1].local_address.port, 179);
    assert_ne!(rc.peer_configurations[0].peer_id, rc.peer_configurations[1].peer_id);

    let router_spec = EngineConfigFile {
        local_as: AsNumber::Small(1),
        peers: vec![good("a", "10.0.0.1", "10.0.0.2"), good("b", "10.0.0.3", "10.0.0"), good("c", "x", "y")],
    };
    match router_spec.try_into() {
        Err(Error::ParseIpAddressError) => {}
        other => panic!("unexpected {other:?}"),
    }
}

#[test]
fn peer_config_file_with_given_identifier() {
    let id = uuid::Uuid::nil();
    let peer_spec = PeerConfigFile {
        peer_as: AsNumber::Small(1234),
        peer_name: "Some peer".to_string(),
        peer_address: SocketAddressSpec::new(&"192.168.1.1", &None),
        local_address: SocketAddressSpec::new(&"192.168.2.2", &None),
    };
    let pc = peer_spec.try_into_with_peer_id(id).unwrap();
    assert_eq!(pc.peer_id, id);
    assert_eq!(
        pc.to_text(),
        "Peer name: Some peer, local address 192.168.2.2:179, remote address 192.168.1.1:179, remote peer AS 1234"
    );
}

#[test]
fn peer_config_file_text() {
    let peer_spec = PeerConfigFile {
        peer_as: AsNumber::Small(1234),
        peer_name: "Some peer".to_string(),
        peer_address: SocketAddressSpec::new(&"192.168.1.1", &None),
        local_address: SocketAddressSpec::new(&"192.168.2.2", &Some(10)),
    };
    assert_eq!(
        peer_spec.to_text(),
        "Peer name Some peer, Peer AS 1234, Local address IP Address 192.168.2.2, port number10, localhost allowed false, peer address IP Address 192.168.1.1, port number0, localhost allowed false"
    );
}

#[test]
fn config_file_provider_keeps_its_path() {
    let provider = ConfigFileProvider::new("./config/app.yaml");
    assert_eq!(provider.file_path(), "./config/app.yaml");
}
