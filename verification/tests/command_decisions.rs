use pike::builder::{build_profile_dir, cargo_build_args, BuildType};
use pike::config_apply::{
    apply_mode, is_custom_config_path, service_config_statements, ApplyMode, ConfigEntry,
    ConfigSource, ParamsBuilder,
};
use pike::enter;
use pike::run::{is_plugin_dir, Params as RunParams};
use pike::supervisor::{supervisor_action, ProbeResult, SupervisorAction};
use pike::topology::Topology;

#[test]
fn apply_params_defaults() {
    let params = ParamsBuilder::default().build();
    assert_eq!(params.data_dir, "./tmp");
    assert_eq!(params.plugin_path, "./");
    assert_eq!(params.plugin_name, None);
    match params.config_source {
        ConfigSource::Path(p) => assert_eq!(p, "plugin_config.yaml"),
        ConfigSource::Values(_) => panic!("expected the default path"),
    }
}

#[test]
fn apply_params_builder_chains() {
    let mut b = ParamsBuilder::default();
    b.config_path("custom.yaml".to_string())
        .data_dir("./state".to_string())
        .plugin_name(Some("demo".to_string()));
    let params = b.build();
    match params.config_source {
        ConfigSource::Path(p) => assert_eq!(p, "custom.yaml"),
        ConfigSource::Values(_) => panic!("expected a path source"),
    }
    assert_eq!(params.data_dir, "./state");
    assert_eq!(params.plugin_path, "./");
    assert_eq!(params.plugin_name, Some("demo".to_string()));
}

#[test]
fn custom_config_path_detection() {
    assert!(is_custom_config_path(&ConfigSource::Path("elsewhere.yaml".to_string())));
    assert!(!is_custom_config_path(&ConfigSource::Path("plugin_config.yaml".to_string())));
    assert!(!is_custom_config_path(&ConfigSource::Values(Vec::new())));
}

#[test]
fn apply_mode_covers_all_cases() {
    assert_eq!(apply_mode(true, true, true), ApplyMode::OnePlugin);
    assert_eq!(apply_mode(false, true, true), ApplyMode::RejectCustomConfigPath);
    assert_eq!(apply_mode(false, true, false), ApplyMode::EachWorkspaceMember);
    assert_eq!(apply_mode(false, false, false), ApplyMode::CurrentDir);
}

#[test]
fn service_config_statement_text() {
    let entries = vec![
        ConfigEntry { key: "timeout".to_string(), value_json: "30".to_string() },
        ConfigEntry { key: "label".to_string(), value_json: "\"fast\"".to_string() },
    ];
    let stmts = service_config_statements("demo", "0.1.0", "svc", &entries);
    assert_eq!(
        stmts,
        vec![
            "ALTER PLUGIN \"demo\" 0.1.0 SET \"svc\".\"timeout\"='30';".to_string(),
            "ALTER PLUGIN \"demo\" 0.1.0 SET \"svc\".\"label\"='\"fast\"';".to_string(),
        ]
    );
}

#[test]
fn build_tool_arguments() {
    assert_eq!(
        cargo_build_args(&BuildType::Debug, "target"),
        vec!["build".to_string(), "--target-dir".to_string(), "target".to_string()]
    );
    assert_eq!(
        cargo_build_args(&BuildType::Release, "tmp_target"),
        vec![
            "build".to_string(),
            "--release".to_string(),
            "--target-dir".to_string(),
            "tmp_target".to_string()
        ]
    );
    assert_eq!(build_profile_dir(&BuildType::Release), "release");
    assert_eq!(build_profile_dir(&BuildType::Debug), "debug");
}

#[test]
fn run_params_defaults() {
    let t = Topology { tiers: Vec::new(), plugins: Vec::new(), environment: Vec::new() };
    let p = RunParams::new(t);
    assert_eq!(p.data_dir, "./tmp");
    assert_eq!(p.base_http_port, 8000);
    assert_eq!(p.base_pg_port, 5432);
    assert_eq!(p.picodata_path, "picodata");
    assert_eq!(p.target_dir, "target");
    assert_eq!(p.plugin_path, "./");
    assert!(!p.daemon && !p.use_release && !p.no_build);
}

#[test]
fn plugin_dir_recognition() {
    assert!(is_plugin_dir(true, true, true, false));
    assert!(is_plugin_dir(true, true, false, true));
    assert!(!is_plugin_dir(true, true, false, false));
    assert!(!is_plugin_dir(true, false, true, true));
    assert!(!is_plugin_dir(false, true, true, true));
}

#[test]
fn enter_decides_by_what_exists() {
    assert_eq!(
        enter::cmd("default_1_1", true, true),
        Ok("cluster/default_1_1/admin.sock".to_string())
    );
    assert_eq!(enter::cmd("default_1_1", false, true), Err(enter::EnterError::MissingInstanceDir));
    assert_eq!(enter::cmd("default_1_1", true, false), Err(enter::EnterError::MissingSocket));
}

#[test]
fn supervisor_kills_group_once_parent_is_gone() {
    assert_eq!(supervisor_action(ProbeResult::ParentAlive), SupervisorAction::SleepAndProbe);
    assert_eq!(
        supervisor_action(ProbeResult::ParentGone),
        SupervisorAction::KillProcessGroupAndExit
    );
}
