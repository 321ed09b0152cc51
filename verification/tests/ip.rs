use dyndns::ip::{ipv4_from_octets, ipv6_from_groups, parse_ipv4, Ip};
use dyndns::provider::Zone;

#[test]
fn ipv4_octets_pack_big_endian() {
    assert_eq!(ipv4_from_octets(203, 0, 113, 9), 0xCB00_7109);
    assert_eq!(ipv4_from_octets(0, 0, 0, 0), 0);
    assert_eq!(ipv4_from_octets(255, 255, 255, 255), u32::MAX);
    assert_eq!(ipv4_from_octets(192, 0, 2, 1), 0xC000_0201);
}

#[test]
fn ipv6_groups_pack_big_endian() {
    assert_eq!(ipv6_from_groups([0, 0, 0, 0, 0, 0, 0, 1]), 1);
    assert_eq!(
        ipv6_from_groups([0x2001, 0xdb8, 0, 0, 0, 0, 0, 1]),
        0x2001_0db8_0000_0000_0000_0000_0000_0001
    );
    assert_eq!(ipv6_from_groups([0xffff; 8]), u128::MAX);
}

#[test]
fn dotted_quads_parse_to_their_value() {
    assert_eq!(parse_ipv4("203.0.113.9"), Some(ipv4_from_octets(203, 0, 113, 9)));
    assert_eq!(parse_ipv4("0.0.0.0"), Some(0));
    assert_eq!(parse_ipv4("255.255.255.255"), Some(u32::MAX));
    assert_eq!(parse_ipv4("1.2.3.4"), Some(0x0102_0304));
}

#[test]
fn malformed_ipv4_literals_are_rejected() {
    assert_eq!(parse_ipv4(""), None);
    assert_eq!(parse_ipv4("1.2.3"), None); // too few fields
    assert_eq!(parse_ipv4("1.2.3.4.5"), None); // too many fields
    assert_eq!(parse_ipv4("256.0.0.1"), None); // octet out of range
    assert_eq!(parse_ipv4("01.2.3.4"), None); // leading zero
    assert_eq!(parse_ipv4("1.2..4"), None); // empty field
    assert_eq!(parse_ipv4("1.2.3.x"), None); // not a digit
    assert_eq!(parse_ipv4("1.2.3.4 "), None); // stray whitespace
    assert_eq!(parse_ipv4("1234.2.3.4"), None); // field too long
}

#[test]
fn detection_is_tagged_by_family() {
    assert!(Ip::V4(1).is_v4());
    assert!(!Ip::V6(1).is_v4());
}

#[test]
fn zone_constructors() {
    let plain = Zone::new("example.com".to_string());
    assert_eq!(plain.name, "example.com");
    assert_eq!(plain.id, None);

    let resolved = Zone::with_id("example.com".to_string(), "z-1".to_string());
    assert_eq!(resolved.name, "example.com");
    assert_eq!(resolved.id, Some("z-1".to_string()));

    // equality ignores the id
    assert_eq!(plain, resolved);
    assert_ne!(plain, Zone::new("other.com".to_string()));
}
