use pike::shutdown::{
    first_stop_error, parse_pid_content, render_pid_file_content, stop_entry_action, stop_plan,
    ClusterEntry, StopAction, StopEntryError,
};

fn entry(name: &str, is_symlink: bool, pid_file: Option<&str>, reachable: bool) -> ClusterEntry {
    ClusterEntry {
        name: name.to_string(),
        is_symlink,
        pid_file: pid_file.map(|c| c.to_string()),
        reachable,
    }
}

#[test]
fn stop_with_no_live_instances_succeeds() {
    let entries = vec![
        entry("default_1_1", true, Some("100\n"), false),
        entry("default_2_1", true, None, false),
        entry("i3", false, None, false),
    ];
    let plan = stop_plan(&entries);
    assert!(plan.iter().all(|a| a.is_ok()));
    assert!(plan.iter().all(|a| !matches!(a, Ok(StopAction::Kill { .. }))));
    assert_eq!(first_stop_error(&plan), None);
}

#[test]
fn reachable_instance_is_killed_by_recorded_pid() {
    let e = entry("default_1_1", true, Some("123\n"), true);
    assert_eq!(stop_entry_action(&e), Ok(StopAction::Kill { pid: 123 }));
}

#[test]
fn non_symlink_entries_are_ignored() {
    let e = entry("i1", false, Some("123\n"), true);
    assert_eq!(stop_entry_action(&e), Ok(StopAction::Ignore));
}

#[test]
fn missing_pid_file_for_reachable_instance_fails() {
    let e = entry("default_1_1", true, None, true);
    assert_eq!(stop_entry_action(&e), Err(StopEntryError::MissingPidFile));
}

#[test]
fn malformed_pid_file_fails() {
    let e = entry("default_1_1", true, Some("not a pid\n"), true);
    assert_eq!(stop_entry_action(&e), Err(StopEntryError::MalformedPidFile));
}

#[test]
fn sweep_attempts_all_and_reports_first_error() {
    let entries = vec![
        entry("a", true, Some("1\n"), true),
        entry("b", true, None, true),
        entry("c", true, Some("bad"), true),
        entry("d", true, Some("4\n"), true),
    ];
    let plan = stop_plan(&entries);
    assert_eq!(plan.len(), 4);
    assert_eq!(plan[0], Ok(StopAction::Kill { pid: 1 }));
    assert_eq!(plan[1], Err(StopEntryError::MissingPidFile));
    assert_eq!(plan[2], Err(StopEntryError::MalformedPidFile));
    assert_eq!(plan[3], Ok(StopAction::Kill { pid: 4 }));
    assert_eq!(first_stop_error(&plan), Some(1));
}

#[test]
fn pid_file_round_trip() {
    let content = render_pid_file_content(4242);
    assert_eq!(content, "4242\n");
    assert_eq!(parse_pid_content(&content), Some(4242));
}

#[test]
fn pid_parse_trims_and_bounds() {
    assert_eq!(parse_pid_content(" 55 \n"), Some(55));
    assert_eq!(parse_pid_content("55"), Some(55));
    assert_eq!(parse_pid_content(""), None);
    assert_eq!(parse_pid_content("\n"), None);
    assert_eq!(parse_pid_content("4294967295\n"), Some(u32::MAX));
    assert_eq!(parse_pid_content("4294967296\n"), None);
    assert_eq!(parse_pid_content("12a\n"), None);
    assert_eq!(parse_pid_content("99\nsecond line ignored"), Some(99));
}
