use pike::install::{rollback_targets, InstallRun, InstallStep, SpawnedInstance};
use pike::statements::{install_statements, render_statement, Statement};
use pike::topology::{
    MigrationContextVar, NamedPlugin, NamedService, NamedTier, Plugin, Service, Tier, Topology,
};

fn demo_topology() -> Topology {
    Topology {
        tiers: vec![NamedTier {
            name: "default".to_string(),
            tier: Tier { replicasets: 2, replication_factor: 2 },
        }],
        plugins: vec![NamedPlugin {
            name: "demo".to_string(),
            plugin: Plugin {
                migration_context: vec![MigrationContextVar {
                    name: "user".to_string(),
                    value: "admin".to_string(),
                }],
                services: vec![NamedService {
                    name: "svc".to_string(),
                    service: Service {
                        tiers: vec!["default".to_string(), "extra".to_string()],
                    },
                }],
                version: Some("0.1.0".to_string()),
            },
        }],
        environment: Vec::new(),
    }
}

#[test]
fn statements_keep_the_fixed_per_plugin_order() {
    let stmts = install_statements(&demo_topology());
    let texts: Vec<String> = stmts.iter().map(render_statement).collect();
    assert_eq!(
        texts,
        vec![
            "CREATE PLUGIN \"demo\" 0.1.0;".to_string(),
            "ALTER PLUGIN \"demo\" 0.1.0 SET migration_context.user='admin';".to_string(),
            "ALTER PLUGIN \"demo\" MIGRATE TO 0.1.0;".to_string(),
            "ALTER PLUGIN \"demo\" 0.1.0 ADD SERVICE \"svc\" TO TIER \"default\";".to_string(),
            "ALTER PLUGIN \"demo\" 0.1.0 ADD SERVICE \"svc\" TO TIER \"extra\";".to_string(),
            "ALTER PLUGIN \"demo\" 0.1.0 ENABLE;".to_string(),
        ]
    );
}

#[test]
fn blocks_of_two_plugins_never_interleave() {
    let mut t = demo_topology();
    t.plugins.push(NamedPlugin {
        name: "other".to_string(),
        plugin: Plugin {
            migration_context: Vec::new(),
            services: Vec::new(),
            version: Some("2.0.0".to_string()),
        },
    });
    let stmts = install_statements(&t);
    assert_eq!(stmts.len(), 6 + 3);
    let texts: Vec<String> = stmts.iter().map(render_statement).collect();
    // the first plugin's block stands complete before the second begins
    assert_eq!(texts[0], "CREATE PLUGIN \"demo\" 0.1.0;");
    assert_eq!(texts[5], "ALTER PLUGIN \"demo\" 0.1.0 ENABLE;");
    assert_eq!(texts[6], "CREATE PLUGIN \"other\" 2.0.0;");
    assert_eq!(texts[7], "ALTER PLUGIN \"other\" MIGRATE TO 2.0.0;");
    assert_eq!(texts[8], "ALTER PLUGIN \"other\" 2.0.0 ENABLE;");
}

#[test]
fn run_executes_in_sequence_and_finishes() {
    let stmts = install_statements(&demo_topology());
    let total = stmts.len();
    let mut run = InstallRun::new(stmts);
    for expected in 0..total {
        assert_eq!(run.next_step(), InstallStep::Execute(expected));
        run.note_success();
    }
    assert_eq!(run.next_step(), InstallStep::Done);
}

#[test]
fn run_stops_at_first_failure_and_rolls_back() {
    let stmts = install_statements(&demo_topology());
    let mut run = InstallRun::new(stmts);
    assert_eq!(run.next_step(), InstallStep::Execute(0));
    run.note_success();
    assert_eq!(run.next_step(), InstallStep::Execute(1));
    run.note_failure();
    assert_eq!(run.next_step(), InstallStep::RollbackAll);
}

#[test]
fn rollback_kills_every_spawned_instance() {
    let spawned = vec![
        SpawnedInstance { instance_id: 1, pid: 100 },
        SpawnedInstance { instance_id: 2, pid: 200 },
        SpawnedInstance { instance_id: 3, pid: 300 },
    ];
    let targets = rollback_targets(&spawned);
    assert_eq!(targets, vec![100, 200, 300]);
    for s in &spawned {
        assert!(targets.contains(&s.pid));
    }
}

#[test]
fn statement_text_matches_the_renderer() {
    let stmts = install_statements(&demo_topology());
    let expected: Vec<String> = stmts.iter().map(render_statement).collect();
    let run = InstallRun::new(stmts);
    for (i, text) in expected.iter().enumerate() {
        assert_eq!(run.statement_text(i), *text);
    }
}

#[test]
fn render_covers_every_statement_kind() {
    let create = Statement::CreatePlugin {
        plugin: "p".to_string(),
        version: "1.0.0".to_string(),
    };
    assert_eq!(render_statement(&create), "CREATE PLUGIN \"p\" 1.0.0;");
    let ctx = Statement::SetMigrationContext {
        plugin: "p".to_string(),
        version: "1.0.0".to_string(),
        name: "key".to_string(),
        value: "val".to_string(),
    };
    assert_eq!(render_statement(&ctx), "ALTER PLUGIN \"p\" 1.0.0 SET migration_context.key='val';");
    let migrate = Statement::Migrate { plugin: "p".to_string(), version: "1.0.0".to_string() };
    assert_eq!(render_statement(&migrate), "ALTER PLUGIN \"p\" MIGRATE TO 1.0.0;");
    let add = Statement::AddServiceToTier {
        plugin: "p".to_string(),
        version: "1.0.0".to_string(),
        service: "s".to_string(),
        tier: "t".to_string(),
    };
    assert_eq!(render_statement(&add), "ALTER PLUGIN \"p\" 1.0.0 ADD SERVICE \"s\" TO TIER \"t\";");
    let enable = Statement::EnablePlugin { plugin: "p".to_string(), version: "1.0.0".to_string() };
    assert_eq!(render_statement(&enable), "ALTER PLUGIN \"p\" 1.0.0 ENABLE;");
}
