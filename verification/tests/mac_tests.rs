use simulator::fast_client_config::{parse_mac, ClientConfig, MacAddress, ParseError};

fn mac_bytes(m: &MacAddress) -> [u8; 6] {
    [m.a, m.b, m.c, m.d, m.e, m.f]
}

#[test]
fn parse_mac_well_formed() {
    let m = parse_mac("aa:bb:cc:dd:ee:ff").unwrap();
    assert_eq!(mac_bytes(&m), [0xaa, 0xbb, 0xcc, 0xdd, 0xee, 0xff]);
}

#[test]
fn parse_mac_upper_and_single_digits() {
    let m = parse_mac("A:0:1F:fF:09:00").unwrap();
    assert_eq!(mac_bytes(&m), [0x0a, 0x00, 0x1f, 0xff, 0x09, 0x00]);
}

#[test]
fn parse_mac_leading_plus_accepted() {
    let m = parse_mac("+1f:02:03:04:05:06").unwrap();
    assert_eq!(mac_bytes(&m), [0x1f, 0x02, 0x03, 0x04, 0x05, 0x06]);
}

#[test]
fn parse_mac_leading_zeros_accepted() {
    let m = parse_mac("00ff:01:02:03:04:05").unwrap();
    assert_eq!(mac_bytes(&m), [0xff, 0x01, 0x02, 0x03, 0x04, 0x05]);
}

#[test]
fn parse_mac_too_few_groups() {
    assert_eq!(parse_mac("aa:bb:cc:dd:ee"), Err(ParseError));
}

#[test]
fn parse_mac_too_many_groups() {
    assert_eq!(parse_mac("aa:bb:cc:dd:ee:ff:11"), Err(ParseError));
}

#[test]
fn parse_mac_bad_digit() {
    assert_eq!(parse_mac("gg:bb:cc:dd:ee:ff"), Err(ParseError));
}

#[test]
fn parse_mac_group_too_large() {
    assert_eq!(parse_mac("1aa:bb:cc:dd:ee:ff"), Err(ParseError));
}

#[test]
fn parse_mac_empty_group() {
    assert_eq!(parse_mac("aa::cc:dd:ee:ff"), Err(ParseError));
    assert_eq!(parse_mac("aa:bb:cc:dd:ee:"), Err(ParseError));
}

#[test]
fn parse_mac_empty_string() {
    assert_eq!(parse_mac(""), Err(ParseError));
}

#[test]
fn parse_mac_plus_alone_rejected() {
    assert_eq!(parse_mac("+:bb:cc:dd:ee:ff"), Err(ParseError));
    assert_eq!(parse_mac("++1:bb:cc:dd:ee:ff"), Err(ParseError));
}

#[test]
fn parse_error_description() {
    assert_eq!(ParseError.description(), "Malformed MAC address.");
}

#[test]
fn client_config_parse_mac_methods() {
    let config = ClientConfig {
        nic_pci: String::from("0000:01:00.0"),
        client_mac: String::from("01:02:03:04:05:06"),
        server_mac: String::from("a0:b1:c2:d3:e4:f5"),
        client_ip: String::from("192.168.0.2"),
        server_ip: String::from("192.168.0.1"),
        num_tenants: 8,
        num_reqs: 100,
        num_resps: 100,
        req_rate: 1000,
    };
    assert_eq!(mac_bytes(&config.parse_mac()), [1, 2, 3, 4, 5, 6]);
    assert_eq!(mac_bytes(&config.parse_server_mac()), [0xa0, 0xb1, 0xc2, 0xd3, 0xe4, 0xf5]);
}

#[test]
fn mac_address_new_keeps_bytes() {
    let m = MacAddress::new(9, 8, 7, 6, 5, 4);
    assert_eq!(mac_bytes(&m), [9, 8, 7, 6, 5, 4]);
}
