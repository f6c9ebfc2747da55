use pike::plan::{plan_instances, PlanError};
use pike::topology::{NamedTier, Tier, Topology};

fn topology_of(tiers: Vec<(&str, u8, u8)>) -> Topology {
    Topology {
        tiers: tiers
            .into_iter()
            .map(|(name, replicasets, replication_factor)| NamedTier {
                name: name.to_string(),
                tier: Tier { replicasets, replication_factor },
            })
            .collect(),
        plugins: Vec::new(),
        environment: Vec::new(),
    }
}

#[test]
fn total_is_sum_over_tiers() {
    let t = topology_of(vec![("a", 2, 3), ("b", 1, 2)]);
    assert_eq!(t.instance_total(), Some(8));
    let plan = plan_instances(&t, 8000, 5432).unwrap();
    assert_eq!(plan.len(), 8);
}

#[test]
fn four_instances_for_two_by_two() {
    let t = topology_of(vec![("default", 2, 2)]);
    let plan = plan_instances(&t, 8000, 5432).unwrap();
    assert_eq!(plan.len(), 4);
    for entry in &plan {
        assert_eq!(entry.tier, "default");
    }
}

#[test]
fn ports_are_base_plus_id() {
    let t = topology_of(vec![("default", 2, 2)]);
    let plan = plan_instances(&t, 8000, 5432).unwrap();
    for (k, entry) in plan.iter().enumerate() {
        let id = (k + 1) as u16;
        assert_eq!(entry.instance_id, id);
        assert_eq!(entry.bin_port, 3000 + id);
        assert_eq!(entry.http_port, 8000 + id);
        assert_eq!(entry.pg_port, 5432 + id);
    }
}

#[test]
fn ports_pairwise_distinct_in_one_run() {
    let t = topology_of(vec![("a", 2, 2), ("b", 1, 3)]);
    let plan = plan_instances(&t, 8000, 5432).unwrap();
    let mut all_ports: Vec<u16> = Vec::new();
    for entry in &plan {
        all_ports.push(entry.bin_port);
        all_ports.push(entry.http_port);
        all_ports.push(entry.pg_port);
    }
    for i in 0..all_ports.len() {
        for j in 0..all_ports.len() {
            if i != j {
                assert_ne!(all_ports[i], all_ports[j]);
            }
        }
    }
}

#[test]
fn ports_deterministic() {
    let t = topology_of(vec![("a", 1, 2), ("b", 2, 1)]);
    let first = plan_instances(&t, 9000, 6000).unwrap();
    let second = plan_instances(&t, 9000, 6000).unwrap();
    assert_eq!(first.len(), second.len());
    for (x, y) in first.iter().zip(second.iter()) {
        assert_eq!(x.instance_id, y.instance_id);
        assert_eq!(x.bin_port, y.bin_port);
        assert_eq!(x.http_port, y.http_port);
        assert_eq!(x.pg_port, y.pg_port);
        assert_eq!(x.tier, y.tier);
    }
}

#[test]
fn slots_follow_tier_declaration_order() {
    let t = topology_of(vec![("first", 1, 2), ("second", 1, 1)]);
    let plan = plan_instances(&t, 8000, 5432).unwrap();
    assert_eq!(plan[0].tier, "first");
    assert_eq!(plan[1].tier, "first");
    assert_eq!(plan[2].tier, "second");
}

#[test]
fn port_range_exhaustion_is_rejected() {
    let t = topology_of(vec![("default", 1, 1)]);
    assert!(matches!(plan_instances(&t, 65535, 5432), Err(PlanError::PortRangeExhausted)));
    assert!(matches!(plan_instances(&t, 8000, 65535), Err(PlanError::PortRangeExhausted)));
    assert!(plan_instances(&t, 65534, 5432).is_ok());
}
