use learn_libp2p::address::{any_interface_address, local_service_address, parse_address, AddressError};
use learn_libp2p::dial::{plan_dial, DialPlan};

#[test]
fn service_address_encodes_ip4_tcp() {
    assert_eq!(local_service_address().to_bytes(), vec![4u8, 127, 0, 0, 1, 6, 31, 144]);
}

#[test]
fn any_interface_address_encodes_zero_port() {
    assert_eq!(any_interface_address().to_bytes(), vec![4u8, 0, 0, 0, 0, 6, 0, 0]);
}

#[test]
fn parsed_text_matches_fixed_address() {
    let a = parse_address("/ip4/127.0.0.1/tcp/8080").expect("parses");
    assert_eq!(a.to_bytes(), local_service_address().to_bytes());
}

#[test]
fn parse_other_ip4_tcp() {
    let a = parse_address("/ip4/192.168.1.20/tcp/24915").expect("parses");
    assert_eq!(a.to_bytes(), vec![4u8, 192, 168, 1, 20, 6, 0x61, 0x53]);
}

#[test]
fn parse_empty_text_is_empty_address() {
    let a = parse_address("").expect("parses");
    assert!(a.to_bytes().is_empty());
}

#[test]
fn parse_rejects_text_without_leading_slash() {
    assert!(matches!(parse_address("ip4/127.0.0.1/tcp/8080"), Err(AddressError::Malformed(_))));
}

#[test]
fn parse_rejects_out_of_range_port() {
    assert!(parse_address("/ip4/127.0.0.1/tcp/70000").is_err());
}

#[test]
fn parse_rejects_unknown_protocol() {
    assert!(parse_address("/ip4/127.0.0.1/carrier-pigeon/1").is_err());
}

#[test]
fn parse_rejects_trailing_slash() {
    assert!(parse_address("/ip4/127.0.0.1/tcp/8080/").is_err());
}

#[test]
fn dial_plan_without_argument_only_listens() {
    assert!(matches!(plan_dial(None), DialPlan::ListenOnly));
}

#[test]
fn dial_plan_with_address_dials_it() {
    match plan_dial(Some("/ip4/127.0.0.1/tcp/24915".to_string())) {
        DialPlan::Dial { text, address } => {
            assert_eq!(text, "/ip4/127.0.0.1/tcp/24915");
            assert_eq!(address.to_bytes(), vec![4u8, 127, 0, 0, 1, 6, 0x61, 0x53]);
        }
        other => panic!("unexpected plan {:?}", other),
    }
}

#[test]
fn dial_plan_with_garbage_reports_it() {
    match plan_dial(Some("not an address".to_string())) {
        DialPlan::Unparsable { text, .. } => assert_eq!(text, "not an address"),
        other => panic!("unexpected plan {:?}", other),
    }
}

#[test]
fn ping_server_address_encodes_port_38067() {
    assert_eq!(
        learn_libp2p::address::ping_server_address().to_bytes(),
        vec![4u8, 127, 0, 0, 1, 6, 148, 179]
    );
}
