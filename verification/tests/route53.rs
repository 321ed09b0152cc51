use dyndns::provider::Zone;
use dyndns::route53::{aws_zone_name, hosted_zone_id, hosted_zone_id_suffix, internal_zone_name};

#[test]
fn trailing_dot_is_stripped() {
    assert_eq!(internal_zone_name("example.com."), "example.com");
    assert_eq!(internal_zone_name("example.com"), "example.com");
    assert_eq!(internal_zone_name(""), "");
    // only one trailing dot goes
    assert_eq!(internal_zone_name("example.com.."), "example.com.");
}

#[test]
fn provider_form_carries_one_trailing_dot() {
    assert_eq!(aws_zone_name("example.com"), "example.com.");
    assert_eq!(aws_zone_name("example.com."), "example.com.");
}

#[test]
fn hosted_zone_id_is_the_path_suffix() {
    assert_eq!(hosted_zone_id_suffix("/hostedzone/Z0423603"), "Z0423603");
    assert_eq!(hosted_zone_id_suffix("Z0423603"), "Z0423603");
    assert_eq!(hosted_zone_id_suffix("/hostedzone/"), "");
}

#[test]
fn resolved_zones_hand_out_their_id() {
    let zone = Zone::with_id("example.com".to_string(), "Z0423603".to_string());
    assert_eq!(hosted_zone_id(&zone).unwrap(), "Z0423603");
}

#[test]
fn unresolved_zones_cannot_be_updated() {
    let zone = Zone::new("example.com".to_string());
    let err = hosted_zone_id(&zone).unwrap_err();
    assert_eq!(err.message, "zone not found");
}
