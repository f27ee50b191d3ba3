use bgp4rs::args::{identical_bindings, parse, Args, ConfigType};
use bgp4rs::shared::error::Error;

fn args() -> Args {
    Args {
        router_config_path: "./config/app.yaml".to_string(),
        log_config_path: None,
        config_type: ConfigType::File,
        management_server_bind_addr: Some("127.0.0.1".to_string()),
        management_server_port: Some(8080),
        api_server_bind_addr: Some("127.0.0.1".to_string()),
        api_server_port: None,
    }
}

#[test]
fn parse_requires_the_config_file() {
    match parse(args(), false) {
        Err(Error::ArgumentError { parameter, offending_value, message }) => {
            assert_eq!(parameter, "-f");
            assert_eq!(offending_value, "./config/app.yaml");
            assert_eq!(message, "Config file does not exist.");
        }
        other => panic!("unexpected {other:?}"),
    }
    let a = parse(args(), true).unwrap();
    assert_eq!(a.router_config_path, "./config/app.yaml");
}

#[test]
fn bindings_need_address_and_port() {
    let a = args();
    let mgmt = a.management_api_server_binding().unwrap();
    assert_eq!(mgmt.to_text(), "IP Address 127.0.0.1, port number8080, localhost allowed true");
    assert!(a.public_api_server_binding().is_none());
    let addr = mgmt.try_into().unwrap();
    assert_eq!(addr.port, 8080);
}

#[test]
fn identical_bindings_are_detected() {
    let mut a = args();
    assert!(!identical_bindings(&a.management_api_server_binding(), &a.public_api_server_binding()));
    a.api_server_port = Some(8080);
    assert!(identical_bindings(&a.management_api_server_binding(), &a.public_api_server_binding()));
    a.api_server_port = Some(8081);
    assert!(!identical_bindings(&a.management_api_server_binding(), &a.public_api_server_binding()));
    assert!(identical_bindings(&None, &None));
}
