use pike::topology::{NamedPlugin, Plugin, Topology};
use pike::versions::{latest_version, resolve_plugin_versions, VersionError};

fn bare_plugin(name: &str) -> NamedPlugin {
    NamedPlugin {
        name: name.to_string(),
        plugin: Plugin { migration_context: Vec::new(), services: Vec::new(), version: None },
    }
}

#[test]
fn latest_of_two_patch_versions() {
    let versions = vec!["0.1.0".to_string(), "0.1.1".to_string()];
    assert_eq!(latest_version(&versions), Some("0.1.1".to_string()));
}

#[test]
fn latest_is_order_independent() {
    let versions = vec!["0.1.1".to_string(), "0.1.0".to_string()];
    assert_eq!(latest_version(&versions), Some("0.1.1".to_string()));
}

#[test]
fn latest_of_empty_listing_is_none() {
    let versions: Vec<String> = Vec::new();
    assert_eq!(latest_version(&versions), None);
}

#[test]
fn latest_of_single_entry() {
    let versions = vec!["2.0.0".to_string()];
    assert_eq!(latest_version(&versions), Some("2.0.0".to_string()));
}

#[test]
fn latest_order_is_lexicographic() {
    // directory names sort byte-wise, so a two-digit patch sorts below .9
    let versions = vec!["0.1.9".to_string(), "0.1.10".to_string()];
    assert_eq!(latest_version(&versions), Some("0.1.9".to_string()));
}

#[test]
fn resolve_sets_every_plugin_version() {
    let t = Topology {
        tiers: Vec::new(),
        plugins: vec![bare_plugin("alpha"), bare_plugin("beta")],
        environment: Vec::new(),
    };
    let listings = vec![
        vec!["0.1.0".to_string(), "0.2.0".to_string()],
        vec!["1.0.0".to_string()],
    ];
    let resolved = resolve_plugin_versions(t, &listings).unwrap();
    assert_eq!(resolved.plugins[0].plugin.version, Some("0.2.0".to_string()));
    assert_eq!(resolved.plugins[1].plugin.version, Some("1.0.0".to_string()));
    assert_eq!(resolved.plugins[0].name, "alpha");
    assert_eq!(resolved.plugins[1].name, "beta");
}

#[test]
fn resolve_fails_on_missing_artifacts() {
    let t = Topology {
        tiers: Vec::new(),
        plugins: vec![bare_plugin("alpha"), bare_plugin("beta")],
        environment: Vec::new(),
    };
    let listings = vec![vec!["0.1.0".to_string()], Vec::new()];
    match resolve_plugin_versions(t, &listings) {
        Err(VersionError::NoVersions { plugin }) => assert_eq!(plugin, "beta"),
        other => panic!("expected a missing-versions error, got {other:?}"),
    }
}
