use globalprotect::command::{connect_argv, connect_plan, kill_sequence, pkill_argv, permission_probe_argv, stdin_payload, which_argv};
use globalprotect::config::{notifications_on, VpnConfig};
use globalprotect::error::VpnError;
use globalprotect::logs::{clear_file, connection_header, fresh_connection_header, logs_display};
use globalprotect::monitor::{monitor_tick, tick_period_millis, IconTarget};
use globalprotect::status::{connection_state, contains_tun, ProbeSample};
use globalprotect::supervisor::Supervisor;

fn sample(proc_present: bool, tun_present: bool) -> ProbeSample {
    ProbeSample { proc_present, tun_present }
}

fn config_for(portal: &str, notifications_enabled: Option<bool>) -> VpnConfig {
    VpnConfig {
        portal: portal.to_string(),
        username: "alice".to_string(),
        password: Some("pw".to_string()),
        notifications_enabled,
        auto_connect: None,
    }
}

#[test]
fn status_truth_table() {
    assert_eq!(connection_state(&sample(false, false)), false);
    assert_eq!(connection_state(&sample(false, true)), false);
    assert_eq!(connection_state(&sample(true, false)), false);
    assert_eq!(connection_state(&sample(true, true)), true);
}

#[test]
fn tun_substring_detection() {
    assert!(contains_tun("12: tun0: <POINTOPOINT,UP> mtu 1400"));
    assert!(contains_tun("atunb"));
    assert!(contains_tun("tun"));
    assert!(!contains_tun(""));
    assert!(!contains_tun("eth0 lo wlan0"));
    assert!(!contains_tun("tu n t un"));
}

#[test]
fn monitor_steady_state_is_quiet() {
    let effects = monitor_tick(true, &sample(true, true), &None);
    assert_eq!(effects.connected, true);
    assert_eq!(effects.status_text, "Status: Connected ✅");
    assert!(effects.icon.is_none());
    assert!(effects.notice.is_none());

    let effects = monitor_tick(false, &sample(false, true), &None);
    assert_eq!(effects.connected, false);
    assert_eq!(effects.status_text, "Status: Disconnected ❌");
    assert!(effects.icon.is_none());
    assert!(effects.notice.is_none());
}

#[test]
fn monitor_connect_transition_notifies() {
    let cfg = Some(config_for("vpn.example.com", None));
    let effects = monitor_tick(false, &sample(true, true), &cfg);
    assert_eq!(effects.connected, true);
    assert_eq!(effects.icon, Some(IconTarget::Connected));
    let notice = effects.notice.expect("transition must notify");
    assert_eq!(notice.title, "VPN Connected");
    assert_eq!(notice.body, "Successfully connected to vpn.example.com");
}

#[test]
fn monitor_external_death_notifies() {
    let cfg = Some(config_for("vpn.example.com", None));
    let effects = monitor_tick(true, &sample(false, false), &cfg);
    assert_eq!(effects.connected, false);
    assert_eq!(effects.status_text, "Status: Disconnected ❌");
    assert_eq!(effects.icon, Some(IconTarget::Default));
    let notice = effects.notice.expect("transition must notify");
    assert_eq!(notice.title, "VPN Disconnected");
    assert_eq!(notice.body, "The VPN connection has been closed.");
}

#[test]
fn monitor_disabled_notifications_stay_silent() {
    let cfg = Some(config_for("vpn.example.com", Some(false)));
    assert!(!notifications_on(&cfg));
    let effects = monitor_tick(false, &sample(true, true), &cfg);
    assert_eq!(effects.icon, Some(IconTarget::Connected));
    assert!(effects.notice.is_none());
}

#[test]
fn monitor_missing_config_falls_back_to_portal() {
    let effects = monitor_tick(false, &sample(true, true), &None);
    let notice = effects.notice.expect("default is to notify");
    assert_eq!(notice.body, "Successfully connected to portal");
}

#[test]
fn connect_argv_passes_fields_verbatim() {
    let argv = connect_argv("  ", "");
    assert_eq!(
        argv,
        vec![
            "sudo".to_string(),
            "openconnect".to_string(),
            "--protocol=gp".to_string(),
            "--passwd-on-stdin".to_string(),
            "  ".to_string(),
            "--user".to_string(),
            "".to_string(),
        ]
    );
}

#[test]
fn connect_plan_without_password_still_spawns() {
    let mut cfg = config_for("vpn.example.com", None);
    cfg.password = None;
    let plan = connect_plan(&cfg);
    assert_eq!(plan.stdin, None);
    assert_eq!(plan.argv, connect_argv("vpn.example.com", "alice"));
}

#[test]
fn connect_plan_feeds_password_with_newline() {
    let plan = connect_plan(&config_for("vpn.example.com", None));
    assert_eq!(plan.stdin, Some("pw\n".to_string()));
    assert_eq!(stdin_payload(&Some("secret".to_string())), Some("secret\n".to_string()));
    assert_eq!(stdin_payload(&None), None);
}

#[test]
fn kill_sequence_is_soft_then_hard() {
    let seq = kill_sequence();
    assert_eq!(
        seq.soft,
        vec![
            "sudo".to_string(),
            "-n".to_string(),
            "/usr/bin/pkill".to_string(),
            "-f".to_string(),
            "openconnect".to_string(),
        ]
    );
    assert_eq!(
        seq.hard,
        vec![
            "sudo".to_string(),
            "-n".to_string(),
            "/usr/bin/pkill".to_string(),
            "-9".to_string(),
            "-f".to_string(),
            "openconnect".to_string(),
        ]
    );
    assert_eq!(seq.pause_millis, 300);
    assert_eq!(seq.soft, pkill_argv(false));
    assert_eq!(seq.hard, pkill_argv(true));
}

#[test]
fn monitor_cadence_is_two_seconds() {
    assert_eq!(tick_period_millis(), 2000);
}

#[test]
fn probe_command_lines() {
    assert_eq!(
        permission_probe_argv(),
        vec![
            "sudo".to_string(),
            "-n".to_string(),
            "openconnect".to_string(),
            "--version".to_string(),
        ]
    );
    assert_eq!(which_argv(), vec!["which".to_string(), "openconnect".to_string()]);
}

#[test]
fn supervisor_reconnect_supersedes() {
    let mut sup = Supervisor::new();
    assert_eq!(sup.current, None);
    assert_eq!(sup.take_for_connect(), None);
    assert!(sup.record_spawn(Ok(101)).is_ok());
    assert_eq!(sup.current, Some(101));
    let replaced = sup.take_for_connect();
    assert_eq!(replaced, Some(101));
    assert!(sup.record_spawn(Ok(202)).is_ok());
    assert_eq!(sup.current, Some(202));
    assert_eq!(sup.take_for_disconnect(), Some(202));
    assert_eq!(sup.current, None);
}

#[test]
fn supervisor_spawn_failure_leaves_no_handle() {
    let mut sup = Supervisor::new();
    sup.take_for_connect();
    let r = sup.record_spawn(Err("No such file or directory".to_string()));
    assert_eq!(sup.current, None);
    match r {
        Err(VpnError::Spawn(detail)) => assert_eq!(detail, "No such file or directory"),
        _ => panic!("spawn failure must surface as a spawn error"),
    }
}

#[test]
fn error_messages_match_the_ui_strings() {
    assert_eq!(
        VpnError::Spawn("boom".to_string()).message(),
        "Failed to start openconnect: boom"
    );
    assert_eq!(VpnError::LogIo("denied".to_string()).message(), "Failed to open log file: denied");
    assert_eq!(VpnError::Internal.message(), "Failed to lock state");
    assert_eq!(VpnError::ConfigParse.message(), "Invalid configuration file");
    assert_eq!(VpnError::ConfigIo("gone".to_string()).message(), "gone");
}

#[test]
fn logs_fresh_install_placeholder() {
    assert_eq!(logs_display(None), "No logs found.");
}

#[test]
fn logs_existing_content_passes_through() {
    assert_eq!(logs_display(Some("line one\nline two".to_string())), "line one\nline two");
    assert_eq!(logs_display(Some("".to_string())), "");
}

#[test]
fn clear_logs_is_idempotent() {
    let once = clear_file(Some("old output".to_string()));
    assert_eq!(once, Some("".to_string()));
    let twice = clear_file(once);
    assert_eq!(twice, Some("".to_string()));
    assert_eq!(clear_file(None), None);
    assert_eq!(clear_file(clear_file(None)), None);
}

#[test]
fn connection_header_wraps_timestamp() {
    assert_eq!(
        connection_header("2024-01-02 03:04:05"),
        "\n--- Connection Attempt: 2024-01-02 03:04:05 ---\n"
    );
    let fresh = fresh_connection_header();
    assert!(fresh.starts_with("\n--- Connection Attempt: "));
    assert!(fresh.ends_with(" ---\n"));
}
