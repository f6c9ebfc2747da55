use pike::tier_merge::{merge_tier_config, ConfigField, StaticTier, TierValue};
use pike::topology::{NamedTier, Tier};

fn named_tier(name: &str, replicasets: u8, replication_factor: u8) -> NamedTier {
    NamedTier { name: name.to_string(), tier: Tier { replicasets, replication_factor } }
}

fn field(key: &str, value_text: &str) -> ConfigField {
    ConfigField { key: key.to_string(), value_text: value_text.to_string() }
}

#[test]
fn topology_wins_for_replication_factor() {
    // the static file says 5; the topology says 2; the topology wins
    let mut merged = vec![StaticTier {
        name: "default".to_string(),
        value: TierValue::Mapping(vec![field("replication_factor", "5"), field("memtx", "64M")]),
    }];
    merge_tier_config(&mut merged, &vec![named_tier("default", 2, 2)]);
    assert_eq!(merged.len(), 1);
    assert_eq!(merged[0].name, "default");
    match &merged[0].value {
        TierValue::Mapping(fields) => {
            assert_eq!(fields.len(), 2);
            assert_eq!(fields[0].key, "replication_factor");
            assert_eq!(fields[0].value_text, "2");
            // the unrelated static key passes through untouched
            assert_eq!(fields[1].key, "memtx");
            assert_eq!(fields[1].value_text, "64M");
        }
        TierValue::Opaque(_) => panic!("expected a mapping"),
    }
}

#[test]
fn missing_tier_is_appended() {
    let mut merged: Vec<StaticTier> = Vec::new();
    merge_tier_config(&mut merged, &vec![named_tier("default", 2, 2)]);
    assert_eq!(merged.len(), 1);
    assert_eq!(merged[0].name, "default");
    match &merged[0].value {
        TierValue::Mapping(fields) => {
            assert_eq!(fields.len(), 1);
            assert_eq!(fields[0].key, "replication_factor");
            assert_eq!(fields[0].value_text, "2");
        }
        TierValue::Opaque(_) => panic!("expected a mapping"),
    }
}

#[test]
fn factor_is_inserted_into_mapping_without_one() {
    let mut merged = vec![StaticTier {
        name: "default".to_string(),
        value: TierValue::Mapping(vec![field("memtx", "64M")]),
    }];
    merge_tier_config(&mut merged, &vec![named_tier("default", 1, 3)]);
    match &merged[0].value {
        TierValue::Mapping(fields) => {
            assert_eq!(fields.len(), 2);
            assert_eq!(fields[0].key, "memtx");
            assert_eq!(fields[1].key, "replication_factor");
            assert_eq!(fields[1].value_text, "3");
        }
        TierValue::Opaque(_) => panic!("expected a mapping"),
    }
}

#[test]
fn static_only_tiers_pass_through() {
    let mut merged = vec![
        StaticTier {
            name: "legacy".to_string(),
            value: TierValue::Mapping(vec![field("replication_factor", "9")]),
        },
        StaticTier { name: "raw".to_string(), value: TierValue::Opaque("plain".to_string()) },
    ];
    merge_tier_config(&mut merged, &vec![named_tier("fresh", 1, 1)]);
    assert_eq!(merged.len(), 3);
    assert_eq!(merged[0].name, "legacy");
    match &merged[0].value {
        TierValue::Mapping(fields) => assert_eq!(fields[0].value_text, "9"),
        TierValue::Opaque(_) => panic!("expected a mapping"),
    }
    assert_eq!(merged[1].name, "raw");
    match &merged[1].value {
        TierValue::Opaque(text) => assert_eq!(text, "plain"),
        TierValue::Mapping(_) => panic!("expected an opaque value"),
    }
    assert_eq!(merged[2].name, "fresh");
}

#[test]
fn opaque_tier_value_is_untouched_even_when_named() {
    let mut merged = vec![StaticTier {
        name: "default".to_string(),
        value: TierValue::Opaque("scalar".to_string()),
    }];
    merge_tier_config(&mut merged, &vec![named_tier("default", 2, 2)]);
    assert_eq!(merged.len(), 1);
    match &merged[0].value {
        TierValue::Opaque(text) => assert_eq!(text, "scalar"),
        TierValue::Mapping(_) => panic!("expected an opaque value"),
    }
}
