use dyndns::gandi::{
    gandi_record_name, put_record_parts, GandiLivednsProvider, LDClient, LDDomain, LDRecord,
    LDRecordType,
};
use dyndns::ip::ipv4_from_octets;
use dyndns::provider::Record;

#[test]
fn record_type_labels() {
    assert_eq!(LDRecordType::A.as_str(), "A");
    assert_eq!(LDRecordType::Aaaa.as_str(), "AAAA");
}

#[test]
fn proper_name_of_apex_is_the_domain() {
    let record = LDRecord {
        record_type: LDRecordType::A,
        ttl: 300,
        name: "@".to_string(),
        values: vec!["203.0.113.9".to_string()],
    };
    assert_eq!(record.proper_name(&"example.com".to_string()), "example.com");
}

#[test]
fn proper_name_qualifies_relative_names() {
    let record = LDRecord {
        record_type: LDRecordType::Aaaa,
        ttl: 300,
        name: "home".to_string(),
        values: vec![],
    };
    assert_eq!(
        record.proper_name(&"example.com".to_string()),
        "home.example.com"
    );
}

#[test]
fn record_name_strips_zone_and_separator() {
    assert_eq!(
        gandi_record_name(&"home.example.com".to_string(), &"example.com".to_string()),
        "home"
    );
}

#[test]
fn record_name_keeps_unrelated_names() {
    // The name does not end in the zone: only what follows the last dot is
    // dropped.
    assert_eq!(
        gandi_record_name(&"www.other.org".to_string(), &"example.com".to_string()),
        "www.other"
    );
}

#[test]
fn record_name_without_any_dot_is_kept() {
    assert_eq!(
        gandi_record_name(&"standalone".to_string(), &"example.com".to_string()),
        "standalone"
    );
}

#[test]
fn api_key_is_handed_out() {
    let client = LDClient::new(Some("SECRET-REDACTED".to_string()));
    assert_eq!(client.api_key().unwrap(), "SECRET-REDACTED");
}

#[test]
fn missing_api_key_is_an_error() {
    let client = LDClient::new(None);
    let err = client.api_key().unwrap_err();
    assert_eq!(err.message, "Gandi LiveDNS API Key not configured");
}

#[test]
fn provider_keeps_its_client() {
    let provider = GandiLivednsProvider::new(LDClient::new(None));
    assert!(provider.client.api_key.is_none());
}

#[test]
fn domains_carry_their_fqdn() {
    let domain = LDDomain {
        fqdn: "example.com".to_string(),
    };
    assert_eq!(domain.fqdn, "example.com");
}

#[test]
fn put_request_parts_are_computed_from_the_record() {
    let record = Record::A {
        name: "home.example.com".to_string(),
        value: ipv4_from_octets(203, 0, 113, 9),
        ttl: 600,
    };
    let (name, label, ttl) = put_record_parts(&"example.com".to_string(), &record);
    assert_eq!(name, "home");
    assert_eq!(label, "A");
    assert_eq!(ttl, 600);
}

#[test]
fn put_request_carries_the_records_own_ttl() {
    // The request's ttl is the record's, untouched: no floor is applied.
    let record = Record::AAAA {
        name: "home.example.com".to_string(),
        value: 1,
        ttl: 60,
    };
    let (_, label, ttl) = put_record_parts(&"example.com".to_string(), &record);
    assert_eq!(label, "AAAA");
    assert_eq!(ttl, 60);
}
