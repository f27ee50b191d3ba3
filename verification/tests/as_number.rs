use bgp4rs::shared::as_number::{AsNumber, AS_TRANS_NUMBER};
use bgp4rs::shared::error::Error;

#[test]
fn should_yield_small_as_number() {
    match AsNumber::from(4096u16) {
        AsNumber::Small(port_number) => assert_eq!(port_number, 4096),
        AsNumber::Extended(_) => panic!("Should yield small AS number"),
    }
}

#[test]
fn should_yield_large_as_number_from_u32_number() {
    match AsNumber::from(131072u32) {
        AsNumber::Small(_) => panic!("Should yield small AS number"),
        AsNumber::Extended(port_number) => assert_eq!(port_number, 131072),
    }
}

#[test]
fn should_yield_small_as_number_from_u16_number() {
    match AsNumber::from(4096u32) {
        AsNumber::Small(port_number) => assert_eq!(port_number, 4096),
        AsNumber::Extended(_) => panic!("Should yield small AS number"),
    }
}

/// Reads the `asNumber` member of a JSON document the way a deserializer hands numbers
/// to the library: non-negative numbers as unsigned, negative ones as signed values.
fn as_number_of_json(data: &str) -> Option<AsNumber> {
    let value: serde_json::Value = serde_json::from_str(data).unwrap();
    let number = &value["asNumber"];
    match number.as_u64() {
        Some(v) => AsNumber::from_unsigned_value(v),
        None => AsNumber::from_signed_value(number.as_i64().unwrap()),
    }
}

#[test]
fn should_deserialize_tiny_as_number() {
    let data = r#"
        {
            "asNumber": 1
        }"#;
    match as_number_of_json(data).unwrap() {
        AsNumber::Small(port_number) => assert_eq!(port_number, 1),
        AsNumber::Extended(_) => panic!("Should yield small AS number"),
    }
}

#[test]
fn should_deserialize_small_as_number() {
    let data = r#"
        {
            "asNumber": 4096
        }"#;
    match as_number_of_json(data).unwrap() {
        AsNumber::Small(port_number) => assert_eq!(port_number, 4096),
        AsNumber::Extended(_) => panic!("Should yield small AS number"),
    }
}

#[test]
fn should_deserialize_large_as_number() {
    let data = r#"
        {
            "asNumber": 131072
        }"#;
    match as_number_of_json(data).unwrap() {
        AsNumber::Small(_) => panic!("Should yield small AS number"),
        AsNumber::Extended(port_number) => assert_eq!(port_number, 131072),
    }
}

#[test]
fn fail_deserialize_negative_tiny_as_number() {
    let data = r#"
        {
            "asNumber": -1
        }"#;
    match as_number_of_json(data) {
        Some(_) => panic!("Should fail"),
        None => (),
    }
}

#[test]
fn fail_deserialize_negative_small_as_number() {
    let data = r#"
        {
            "asNumber": -4096
        }"#;
    match as_number_of_json(data) {
        Some(_) => panic!("Should fail"),
        None => (),
    }
}

#[test]
fn fail_deserialize_negative_large_as_number() {
    let data = r#"
        {
            "asNumber": -131072
        }"#;
    match as_number_of_json(data) {
        Some(_) => panic!("Should fail"),
        None => (),
    }
}

#[test]
fn as_number_boundary_between_forms() {
    assert_eq!(AsNumber::from(65535u32), AsNumber::Small(65535));
    assert_eq!(AsNumber::from(65536u32), AsNumber::Extended(65536));
    assert_eq!(AsNumber::from(0u16), AsNumber::Small(0));
}

#[test]
fn as_number_try_from_u64() {
    assert_eq!(AsNumber::try_from(23456u64).unwrap(), AsNumber::Small(23456));
    assert_eq!(AsNumber::try_from(4294967295u64).unwrap(), AsNumber::Extended(4294967295));
    match AsNumber::try_from(4294967296u64) {
        Err(Error::InvalidAsNumberError { as_number }) => assert_eq!(as_number, 4294967296),
        other => panic!("unexpected {other:?}"),
    }
}

#[test]
fn as_number_default_is_as_trans() {
    assert_eq!(AsNumber::default(), AsNumber::Small(23456));
    assert_eq!(AS_TRANS_NUMBER, 23456);
    assert_eq!(AsNumber::as_trans(), AsNumber::Small(23456));
}

#[test]
fn as_number_signed_values() {
    assert_eq!(AsNumber::from_signed_value(0), None);
    assert_eq!(AsNumber::from_signed_value(-5), None);
    assert_eq!(AsNumber::from_signed_value(70000), Some(AsNumber::Extended(70000)));
    // positive values are taken from their low 32 bits
    assert_eq!(AsNumber::from_signed_value(4294967296 + 7), Some(AsNumber::Small(7)));
    assert_eq!(AsNumber::from_unsigned_value(0), Some(AsNumber::Small(0)));
    assert_eq!(AsNumber::from_unsigned_value(4294967296), None);
}

#[test]
fn as_number_text() {
    assert_eq!(AsNumber::Small(4096).to_text(), "4096");
    assert_eq!(AsNumber::Extended(131072).to_text(), "131072");
    assert_eq!(AsNumber::Small(0).to_text(), "0");
}
