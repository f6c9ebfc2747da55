use pike::topology::{
    MigrationContextVar, NamedPlugin, NamedService, NamedTier, Plugin, Service, Tier, Topology,
    TopologyError,
};

fn tier(name: &str, replicasets: u8, replication_factor: u8) -> NamedTier {
    NamedTier { name: name.to_string(), tier: Tier { replicasets, replication_factor } }
}

fn plugin(name: &str, services: Vec<(&str, Vec<&str>)>) -> NamedPlugin {
    NamedPlugin {
        name: name.to_string(),
        plugin: Plugin {
            migration_context: vec![MigrationContextVar {
                name: "stage".to_string(),
                value: "test".to_string(),
            }],
            services: services
                .into_iter()
                .map(|(service_name, tiers)| NamedService {
                    name: service_name.to_string(),
                    service: Service {
                        tiers: tiers.into_iter().map(|t| t.to_string()).collect(),
                    },
                })
                .collect(),
            version: None,
        },
    }
}

#[test]
fn well_formed_topology_validates() {
    let t = Topology {
        tiers: vec![tier("default", 2, 2), tier("extra", 1, 1)],
        plugins: vec![plugin("demo", vec![("svc", vec!["default", "extra"])])],
        environment: Vec::new(),
    };
    assert!(t.validate().is_ok());
}

#[test]
fn duplicate_tier_name_is_rejected() {
    let t = Topology {
        tiers: vec![tier("default", 1, 1), tier("default", 2, 1)],
        plugins: Vec::new(),
        environment: Vec::new(),
    };
    assert_eq!(t.validate(), Err(TopologyError::DuplicateTierName));
}

#[test]
fn duplicate_plugin_name_is_rejected() {
    let t = Topology {
        tiers: vec![tier("default", 1, 1)],
        plugins: vec![plugin("demo", vec![]), plugin("demo", vec![])],
        environment: Vec::new(),
    };
    assert_eq!(t.validate(), Err(TopologyError::DuplicatePluginName));
}

#[test]
fn duplicate_service_name_is_rejected() {
    let t = Topology {
        tiers: vec![tier("default", 1, 1)],
        plugins: vec![plugin("demo", vec![("svc", vec!["default"]), ("svc", vec!["default"])])],
        environment: Vec::new(),
    };
    assert_eq!(t.validate(), Err(TopologyError::DuplicateServiceName));
}

#[test]
fn empty_tier_is_rejected() {
    let t = Topology {
        tiers: vec![tier("default", 0, 2)],
        plugins: Vec::new(),
        environment: Vec::new(),
    };
    assert_eq!(t.validate(), Err(TopologyError::EmptyTier));
    let t = Topology {
        tiers: vec![tier("default", 2, 0)],
        plugins: Vec::new(),
        environment: Vec::new(),
    };
    assert_eq!(t.validate(), Err(TopologyError::EmptyTier));
}

#[test]
fn unknown_tier_reference_is_rejected() {
    let t = Topology {
        tiers: vec![tier("default", 1, 1)],
        plugins: vec![plugin("demo", vec![("svc", vec!["missing"])])],
        environment: Vec::new(),
    };
    assert_eq!(t.validate(), Err(TopologyError::UnknownTierReference));
}

#[test]
fn instance_total_of_empty_topology_is_zero() {
    let t = Topology { tiers: Vec::new(), plugins: Vec::new(), environment: Vec::new() };
    assert_eq!(t.instance_total(), Some(0));
}

#[test]
fn instance_total_multiplies_per_tier() {
    let t = Topology {
        tiers: vec![tier("a", 3, 2), tier("b", 255, 255)],
        plugins: Vec::new(),
        environment: Vec::new(),
    };
    assert_eq!(t.instance_total(), Some(6 + 65025));
}
