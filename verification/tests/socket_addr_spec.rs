use bgp4rs::shared::socket_addr_spec::SocketAddressSpec as PlainSpec;
use bgp4rs::shared::error::Error;
use bgp4rs::shared::ip_address::IpAddress;
use bgp4rs::shared::network::socket_addr_spec::SocketAddressSpec;

#[test]
fn socket_addr_spec_should_convert_ipv4_address_spec_without_port_number() {
    let spec = SocketAddressSpec::new(&"192.168.1.1", &None);
    match spec.try_into() {
        Ok(addr) => {
            assert_eq!(addr.ip(), IpAddress::V4([192, 168, 1, 1]));
            assert_eq!(addr.port(), 0);
        }
        Err(err) => panic!("Received error: {err:?}"),
    }
}

#[test]
fn socket_addr_spec_should_convert_ipv4_address_spec_with_port_number() {
    let spec = SocketAddressSpec::new(&"192.168.1.1", &Some(1179));
    match spec.try_into() {
        Ok(addr) => {
            assert_eq!(addr.ip(), IpAddress::V4([192, 168, 1, 1]));
            assert_eq!(addr.port(), 1179);
        }
        Err(err) => panic!("Received error: {err:?}"),
    }
}

#[test]
fn socket_addr_spec_should_not_convert_ipv4_address_spec_for_localhost() {
    let spec = SocketAddressSpec::new(&"127.0.0.1", &None);
    match spec.try_into() {
        Ok(_addr) => panic!("Should not have been able to convert localhost address."),
        Err(_err) => {}
    }
}

#[test]
fn should_convert_ipv4_address_spec_for_allowed_localhost() {
    let spec = SocketAddressSpec::new_allowing_localhost(&"127.0.0.1", &None);
    match spec.try_into() {
        Ok(addr) => {
            assert_eq!(addr.ip(), IpAddress::V4([127, 0, 0, 1]));
            assert_eq!(addr.port(), 0);
        }
        Err(err) => panic!("Received error: {err:?}"),
    }
}

#[test]
fn socket_addr_spec_should_not_convert_ipv4_address_spec_for_multicast() {
    let spec = SocketAddressSpec::new(&"239.1.1.1", &None);
    match spec.try_into() {
        Ok(_addr) => panic!("Should not have been able to convert multicast address."),
        Err(_err) => {}
    }
}

#[test]
fn socket_addr_spec_should_not_convert_ipv4_address_spec_for_incomplete_address() {
    let spec = SocketAddressSpec::new(&"192.168.1", &None);
    match spec.try_into() {
        Ok(_addr) => panic!("Should not have been able to convert localhost address."),
        Err(_err) => {}
    }
}

#[test]
fn socket_addr_spec_should_convert_ipv6_address_spec_without_port_number() {
    let spec = SocketAddressSpec::new(&"2001:4860:4860::8888", &None);
    match spec.try_into() {
        Ok(addr) => {
            assert_eq!(addr.ip(), IpAddress::V6([0x2001, 0x4860, 0x4860, 0, 0, 0, 0, 0x8888]));
            assert_eq!(addr.port(), 0);
        }
        Err(err) => panic!("Received error: {err:?}"),
    }
}

#[test]
fn socket_addr_spec_should_convert_ipv6_address_spec_with_port_number() {
    let spec = SocketAddressSpec::new(&"2001:4860:4860::8888", &Some(1179));
    match spec.try_into() {
        Ok(addr) => {
            assert_eq!(addr.ip(), IpAddress::V6([0x2001, 0x4860, 0x4860, 0, 0, 0, 0, 0x8888]));
            assert_eq!(addr.port(), 1179);
        }
        Err(err) => panic!("Received error: {err:?}"),
    }
}

#[test]
fn socket_addr_spec_should_not_convert_ipv6_address_spec_for_localhost() {
    let spec = SocketAddressSpec::new(&"::1", &None);
    match spec.try_into() {
        Ok(_addr) => panic!("Should not have been able to convert localhost address."),
        Err(_err) => {}
    }
}

#[test]
fn should_convert_ipv6_address_spec_for_allowed_localhost() {
    let spec = SocketAddressSpec::new_allowing_localhost(&"::1", &None);
    match spec.try_into() {
        Ok(addr) => {
            assert_eq!(addr.ip(), IpAddress::V6([0x0, 0x0, 0x0, 0, 0, 0, 0, 0x1]));
            assert_eq!(addr.port(), 0);
        }
        Err(err) => panic!("Received error: {err:?}"),
    }
}

#[test]
fn socket_addr_spec_should_not_convert_ipv6_address_spec_for_multicast() {
    let spec = SocketAddressSpec::new(&"ff02::1", &None);
    match spec.try_into() {
        Ok(_addr) => panic!("Should not have been able to convert multicast address."),
        Err(_err) => {}
    }
}

#[test]
fn socket_addr_spec_should_convert_ipv4_address_spec_without_port_number_with_default_port() {
    let spec = SocketAddressSpec::new(&"192.168.1.1", &None).with_default_port(179);
    match spec.try_into() {
        Ok(addr) => {
            assert_eq!(addr.ip(), IpAddress::V4([192, 168, 1, 1]));
            assert_eq!(addr.port(), 179);
        }
        Err(err) => panic!("Received error: {err:?}"),
    }
}

#[test]
fn socket_addr_spec_should_convert_ipv6_address_spec_without_port_number_with_default_port() {
    let spec = SocketAddressSpec::new(&"2001:4860:4860::8888", &None).with_default_port(179);
    match spec.try_into() {
        Ok(addr) => {
            assert_eq!(addr.ip(), IpAddress::V6([0x2001, 0x4860, 0x4860, 0, 0, 0, 0, 0x8888]));
            assert_eq!(addr.port(), 179);
        }
        Err(err) => panic!("Received error: {err:?}"),
    }
}

#[test]
fn socket_addr_spec_should_convert_ipv4_address_spec_with_port_number_without_default_port() {
    let spec = SocketAddressSpec::new(&"192.168.1.1", &Some(1179)).with_default_port(179);
    match spec.try_into() {
        Ok(addr) => {
            assert_eq!(addr.ip(), IpAddress::V4([192, 168, 1, 1]));
            assert_eq!(addr.port(), 1179);
        }
        Err(err) => panic!("Received error: {err:?}"),
    }
}

#[test]
fn socket_addr_spec_should_convert_ipv6_address_spec_with_port_number_without_default_port() {
    let spec =
        SocketAddressSpec::new(&"2001:4860:4860::8888", &Some(1179)).with_default_port(179);
    match spec.try_into() {
        Ok(addr) => {
            assert_eq!(addr.ip(), IpAddress::V6([0x2001, 0x4860, 0x4860, 0, 0, 0, 0, 0x8888]));
            assert_eq!(addr.port(), 1179);
        }
        Err(err) => panic!("Received error: {err:?}"),
    }
}

#[test]
fn socket_addr_spec_errors_by_kind() {
    match SocketAddressSpec::new(&"", &None).try_into() {
        Err(Error::InvalidIpAddressError { ip_address }) => assert_eq!(ip_address, ""),
        other => panic!("unexpected {other:?}"),
    }
    match SocketAddressSpec::new(&"not an address", &None).try_into() {
        Err(Error::ParseIpAddressError) => {}
        other => panic!("unexpected {other:?}"),
    }
    match SocketAddressSpec::new(&"127.0.0.1", &Some(5)).try_into() {
        Err(Error::InvalidIpAddressError { ip_address }) => assert_eq!(ip_address, "127.0.0.1"),
        other => panic!("unexpected {other:?}"),
    }
    match SocketAddressSpec::new_allowing_localhost(&"224.0.0.1", &None).try_into() {
        Err(Error::InvalidIpAddressError { ip_address }) => assert_eq!(ip_address, "224.0.0.1"),
        other => panic!("unexpected {other:?}"),
    }
}

#[test]
fn socket_addr_spec_text() {
    let spec = SocketAddressSpec::new(&"10.0.0.1", &None);
    assert_eq!(spec.to_text(), "IP Address 10.0.0.1, port number0, localhost allowed false");
    let spec = SocketAddressSpec::new_allowing_localhost(&"::1", &Some(8080));
    assert_eq!(spec.to_text(), "IP Address ::1, port number8080, localhost allowed true");
}

#[test]
fn socket_addr_spec_same_as() {
    let a = SocketAddressSpec::new_allowing_localhost(&"::1", &Some(8080));
    let b = SocketAddressSpec::new_allowing_localhost(&"::1", &Some(8080));
    let c = SocketAddressSpec::new(&"::1", &Some(8080));
    assert!(a.same_as(&b));
    assert!(!a.same_as(&c));
}

#[test]
fn default_port_is_set_once() {
    let spec = SocketAddressSpec::new(&"10.1.1.1", &None).with_default_port(179).with_default_port(80);
    assert_eq!(spec.port_number(), Some(179));
    let spec = SocketAddressSpec::new(&"10.1.1.1", &Some(1)).with_default_port(179);
    assert_eq!(spec.port_number(), Some(1));
    assert_eq!(spec.ip_address(), "10.1.1.1");
    assert!(!spec.localhost_allowed());
}

#[test]
fn localhost_allowance_only_widens() {
    for text in ["10.1.1.1", "2001:db8::1", "127.0.0.1", "::1", "ff02::1", "x"] {
        let plain = SocketAddressSpec::new(&text, &Some(7)).try_into();
        let allowing = SocketAddressSpec::new_allowing_localhost(&text, &Some(7)).try_into();
        if let Ok(a) = plain {
            assert_eq!(allowing.unwrap(), a);
        } else if let Ok(a) = allowing {
            assert!(a.ip.is_loopback());
        }
    }
}

#[test]
fn both_socket_address_specs_agree() {
    for text in ["10.1.1.1", "2001:db8::1", "127.0.0.1", "::1", "ff02::1", "x", ""] {
        let plain = PlainSpec { ip_address: text.to_string(), port_number: None }.try_into();
        let network = SocketAddressSpec::new(&text, &None).try_into();
        assert_eq!(plain.is_ok(), network.is_ok());
        if let (Ok(a), Ok(b)) = (plain, network) {
            assert_eq!(a, b);
        }
    }
}
