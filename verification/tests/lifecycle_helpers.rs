use pike::lifecycle::{
    admin_socket_rel_path, first_active_socket, instance_dir_rel_path, listen_address,
    placeholder_instance_name, readiness_decision, spawn_args, uses_legacy_flags, PollDecision,
    SpawnConfig,
};

#[test]
fn placeholder_names() {
    assert_eq!(placeholder_instance_name(1), "i1");
    assert_eq!(placeholder_instance_name(12), "i12");
}

#[test]
fn on_disk_layout_names() {
    assert_eq!(instance_dir_rel_path(3), "cluster/i3");
    assert_eq!(admin_socket_rel_path("default_1_1"), "cluster/default_1_1/admin.sock");
}

#[test]
fn readiness_poll_decisions() {
    assert_eq!(readiness_decision(true, 0, 10_000), PollDecision::Adopt);
    assert_eq!(readiness_decision(true, 20_000, 10_000), PollDecision::Adopt);
    assert_eq!(readiness_decision(false, 500, 10_000), PollDecision::Retry);
    assert_eq!(readiness_decision(false, 10_000, 10_000), PollDecision::GiveUp);
}

#[test]
fn legacy_flag_detection() {
    assert!(uses_legacy_flags("picodata 24.6.1-abc"));
    assert!(!uses_legacy_flags("picodata 25.1.1"));
}

#[test]
fn listen_addresses() {
    assert_eq!(listen_address("127.0.0.1", 3001), "127.0.0.1:3001");
    assert_eq!(listen_address("0.0.0.0", 8002), "0.0.0.0:8002");
}

fn config() -> SpawnConfig {
    SpawnConfig {
        instance_dir: "./tmp/cluster/i1".to_string(),
        bin_port: 3001,
        first_instance_bin_port: 3001,
        http_port: 8001,
        pg_port: 5433,
        tier: "default".to_string(),
        tier_config: "{\"default\":{\"replication_factor\":2}}".to_string(),
        plugins_dir: None,
        daemon: false,
        log_file_path: "./tmp/cluster/i1/picodata.log".to_string(),
        legacy_flags: false,
    }
}

#[test]
fn spawn_arguments_exact_list() {
    let args = spawn_args(&config());
    assert_eq!(
        args,
        vec![
            "run".to_string(),
            "--instance-dir".to_string(),
            "./tmp/cluster/i1".to_string(),
            "--iproto-listen".to_string(),
            "127.0.0.1:3001".to_string(),
            "--peer".to_string(),
            "127.0.0.1:3001".to_string(),
            "--http-listen".to_string(),
            "0.0.0.0:8001".to_string(),
            "--pg-listen".to_string(),
            "127.0.0.1:5433".to_string(),
            "--tier".to_string(),
            "default".to_string(),
            "--config-parameter".to_string(),
            "cluster.tier={\"default\":{\"replication_factor\":2}}".to_string(),
        ]
    );
}

#[test]
fn spawn_arguments_with_plugins_and_daemon() {
    let mut c = config();
    c.plugins_dir = Some("target/debug".to_string());
    c.daemon = true;
    let args = spawn_args(&c);
    let tail: Vec<String> = args[15..].to_vec();
    assert_eq!(
        tail,
        vec![
            "--plugin-dir".to_string(),
            "target/debug".to_string(),
            "--log".to_string(),
            "./tmp/cluster/i1/picodata.log".to_string(),
        ]
    );
}

#[test]
fn spawn_arguments_legacy_flags() {
    let mut c = config();
    c.legacy_flags = true;
    let args = spawn_args(&c);
    assert_eq!(args[1], "--data-dir");
    assert_eq!(args[3], "--listen");
}

#[test]
fn first_active_socket_scans_in_order() {
    let entries = vec![
        ("stale".to_string(), false),
        ("default_1_1".to_string(), true),
        ("default_2_1".to_string(), true),
    ];
    assert_eq!(first_active_socket(&entries), Some("cluster/default_1_1/admin.sock".to_string()));
    let none: Vec<(String, bool)> = vec![("stale".to_string(), false)];
    assert_eq!(first_active_socket(&none), None);
    let empty: Vec<(String, bool)> = Vec::new();
    assert_eq!(first_active_socket(&empty), None);
}
