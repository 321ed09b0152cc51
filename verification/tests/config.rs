use dyndns::config::{
    any_entry_targets, default_interval, default_ttl, validate_config, Config, ConfigError,
    DomainRecord,
};

/// Parses a YAML configuration document into the raw interval and zone list
/// that `validate_config` takes — the same reading the surrounding
/// application performs on a configuration file.
fn parse_yaml_config(text: &str) -> (u64, Vec<(String, Vec<DomainRecord>)>) {
    let doc: serde_yaml::Value = serde_yaml::from_str(text).expect("well-formed yaml");
    let interval = doc.get("interval").and_then(|v| v.as_u64()).unwrap_or(0);
    let mut zones = Vec::new();
    if let Some(mapping) = doc.get("zones").and_then(|v| v.as_mapping()) {
        for (key, value) in mapping {
            let name = key.as_str().expect("zone name").to_string();
            let mut entries = Vec::new();
            for entry in value.as_sequence().expect("entry list") {
                entries.push(DomainRecord {
                    a: entry
                        .get("a")
                        .and_then(|v| v.as_str())
                        .map(|s| s.to_string()),
                    aaaa: entry
                        .get("aaaa")
                        .and_then(|v| v.as_str())
                        .map(|s| s.to_string()),
                    ttl: entry
                        .get("ttl")
                        .and_then(|v| v.as_u64())
                        .map(|t| t as u32)
                        .unwrap_or_else(default_ttl),
                });
            }
            zones.push((name, entries));
        }
    }
    (interval, zones)
}

#[test]
fn test_load_config() {
    let (interval, zones) = parse_yaml_config(
        r#"---
zones:
  test.com:
    - a: '*.test.com'
    - a: test.com
"#,
    );
    let config = validate_config(interval, zones).unwrap();

    let zones = vec![(
        "test.com".to_string(),
        vec![
            DomainRecord {
                a: Some("*.test.com".into()),
                aaaa: None,
                ttl: default_ttl(),
            },
            DomainRecord {
                a: Some("test.com".into()),
                aaaa: None,
                ttl: default_ttl(),
            },
        ],
    )];

    assert_eq!(
        Config {
            interval: default_interval(),
            zones
        },
        config
    )
}

#[test]
fn entries_without_targets_are_dropped() {
    let empty_entry = DomainRecord {
        a: None,
        aaaa: None,
        ttl: 300,
    };
    let kept_entry = DomainRecord {
        a: Some("home.example.com".to_string()),
        aaaa: None,
        ttl: 300,
    };
    let config = validate_config(
        600,
        vec![(
            "example.com".to_string(),
            vec![empty_entry, kept_entry.clone()],
        )],
    )
    .unwrap();
    assert_eq!(config.interval, 600);
    assert_eq!(config.zones.len(), 1);
    assert_eq!(config.zones[0].1, vec![kept_entry]);
}

#[test]
fn zones_left_empty_are_dropped() {
    let empty_entry = DomainRecord {
        a: None,
        aaaa: None,
        ttl: 300,
    };
    let kept_entry = DomainRecord {
        a: None,
        aaaa: Some("home.example.org".to_string()),
        ttl: 300,
    };
    let config = validate_config(
        0,
        vec![
            ("all-dropped.com".to_string(), vec![empty_entry]),
            ("example.org".to_string(), vec![kept_entry]),
        ],
    )
    .unwrap();
    assert_eq!(config.zones.len(), 1);
    assert_eq!(config.zones[0].0, "example.org");
}

#[test]
fn configuration_reducing_to_nothing_is_rejected() {
    let empty_entry = DomainRecord {
        a: None,
        aaaa: None,
        ttl: 300,
    };
    let outcome = validate_config(600, vec![("example.com".to_string(), vec![empty_entry])]);
    assert_eq!(outcome, Err(ConfigError::Empty));

    let outcome = validate_config(600, vec![]);
    assert_eq!(outcome, Err(ConfigError::Empty));
}

#[test]
fn zero_interval_falls_back_to_default() {
    let entry = DomainRecord {
        a: Some("home.example.com".to_string()),
        aaaa: None,
        ttl: 300,
    };
    let config = validate_config(0, vec![("example.com".to_string(), vec![entry])]).unwrap();
    assert_eq!(config.interval, 1800);
}

#[test]
fn defaults_match_the_documented_values() {
    assert_eq!(default_interval(), 1800);
    assert_eq!(default_ttl(), 300);
}

#[test]
fn record_sets_are_matched_against_targets() {
    let entries = vec![
        DomainRecord {
            a: Some("home.example.com".to_string()),
            aaaa: None,
            ttl: 300,
        },
        DomainRecord {
            a: None,
            aaaa: Some("v6.example.com".to_string()),
            ttl: 300,
        },
    ];
    assert!(any_entry_targets(
        &entries,
        &"home.example.com".to_string(),
        true
    ));
    // the A target never matches an AAAA record set of the same name
    assert!(!any_entry_targets(
        &entries,
        &"home.example.com".to_string(),
        false
    ));
    assert!(any_entry_targets(
        &entries,
        &"v6.example.com".to_string(),
        false
    ));
    assert!(!any_entry_targets(
        &entries,
        &"other.example.com".to_string(),
        true
    ));
}

#[test]
fn has_zone_finds_configured_names() {
    let entry = DomainRecord {
        a: Some("home.example.com".to_string()),
        aaaa: None,
        ttl: 300,
    };
    let config = validate_config(600, vec![("example.com".to_string(), vec![entry])]).unwrap();
    assert!(config.has_zone(&"example.com".to_string()));
    assert!(!config.has_zone(&"other.com".to_string()));
}
