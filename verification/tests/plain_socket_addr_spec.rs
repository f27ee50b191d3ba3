use bgp4rs::shared::ip_address::IpAddress;
use bgp4rs::shared::socket_addr_spec::SocketAddressSpec;

fn spec(ip: &str, port: Option<u16>) -> SocketAddressSpec {
    SocketAddressSpec { ip_address: ip.to_string(), port_number: port }
}

#[test]
fn plain_should_convert_ipv4_address_spec_without_port_number() {
    match spec("192.168.1.1", None).try_into() {
        Ok(addr) => {
            assert_eq!(addr.ip(), IpAddress::V4([192, 168, 1, 1]));
            assert_eq!(addr.port(), 0);
        }
        Err(err) => panic!("Received error: {err:?}"),
    }
}

#[test]
fn plain_should_convert_ipv4_address_spec_with_port_number() {
    match spec("192.168.1.1", Some(1179)).try_into() {
        Ok(addr) => {
            assert_eq!(addr.ip(), IpAddress::V4([192, 168, 1, 1]));
            assert_eq!(addr.port(), 1179);
        }
        Err(err) => panic!("Received error: {err:?}"),
    }
}

#[test]
fn plain_should_not_convert_ipv4_address_spec_for_localhost() {
    assert!(spec("127.0.0.1", None).try_into().is_err());
}

#[test]
fn plain_should_not_convert_ipv4_address_spec_for_multicast() {
    assert!(spec("239.1.1.1", None).try_into().is_err());
}

#[test]
fn plain_should_not_convert_ipv4_address_spec_for_incomplete_address() {
    assert!(spec("192.168.1", None).try_into().is_err());
}

#[test]
fn plain_should_convert_ipv6_address_spec_without_port_number() {
    match spec("2001:4860:4860::8888", None).try_into() {
        Ok(addr) => {
            assert_eq!(addr.ip(), IpAddress::V6([0x2001, 0x4860, 0x4860, 0, 0, 0, 0, 0x8888]));
            assert_eq!(addr.port(), 0);
        }
        Err(err) => panic!("Received error: {err:?}"),
    }
}

#[test]
fn plain_should_convert_ipv6_address_spec_with_port_number() {
    match spec("2001:4860:4860::8888", Some(1179)).try_into() {
        Ok(addr) => {
            assert_eq!(addr.ip(), IpAddress::V6([0x2001, 0x4860, 0x4860, 0, 0, 0, 0, 0x8888]));
            assert_eq!(addr.port(), 1179);
        }
        Err(err) => panic!("Received error: {err:?}"),
    }
}

#[test]
fn plain_should_not_convert_ipv6_address_spec_for_localhost() {
    assert!(spec("::1", None).try_into().is_err());
}

#[test]
fn plain_should_not_convert_ipv6_address_spec_for_multicast() {
    assert!(spec("ff02::1", None).try_into().is_err());
}

#[test]
fn plain_should_convert_ipv4_address_spec_without_port_number_with_default_port() {
    match spec("192.168.1.1", None).with_default_port(179).try_into() {
        Ok(addr) => {
            assert_eq!(addr.ip(), IpAddress::V4([192, 168, 1, 1]));
            assert_eq!(addr.port(), 179);
        }
        Err(err) => panic!("Received error: {err:?}"),
    }
}

#[test]
fn plain_should_convert_ipv6_address_spec_without_port_number_with_default_port() {
    match spec("2001:4860:4860::8888", None).with_default_port(179).try_into() {
        Ok(addr) => {
            assert_eq!(addr.ip(), IpAddress::V6([0x2001, 0x4860, 0x4860, 0, 0, 0, 0, 0x8888]));
            assert_eq!(addr.port(), 179);
        }
        Err(err) => panic!("Received error: {err:?}"),
    }
}

#[test]
fn plain_should_convert_ipv4_address_spec_with_port_number_without_default_port() {
    match spec("192.168.1.1", Some(1179)).with_default_port(179).try_into() {
        Ok(addr) => {
            assert_eq!(addr.ip(), IpAddress::V4([192, 168, 1, 1]));
            assert_eq!(addr.port(), 1179);
        }
        Err(err) => panic!("Received error: {err:?}"),
    }
}

#[test]
fn plain_should_convert_ipv6_address_spec_with_port_number_without_default_port() {
    match spec("2001:4860:4860::8888", Some(1179)).with_default_port(179).try_into() {
        Ok(addr) => {
            assert_eq!(addr.ip(), IpAddress::V6([0x2001, 0x4860, 0x4860, 0, 0, 0, 0, 0x8888]));
            assert_eq!(addr.port(), 1179);
        }
        Err(err) => panic!("Received error: {err:?}"),
    }
}

#[test]
fn plain_socket_addr_spec_text() {
    assert_eq!(spec("10.0.0.1", Some(179)).to_text(), "IP Address 10.0.0.1, port number179");
}
