use aegis_guardian::guardian_ui::dashboard::{
    ai_alert_from_record, get_ai_alerts, get_real_activities, listening_pairs, mark_whitelisted,
    next_tail_range, parse_timestamp, render_config, whitelisted_port_numbers, GuardianConfig,
    IncidentRecord, ModulesConfig,
};
use aegis_guardian::guardian_ui::config_file::{config_file_path, reload_marker_path};
use aegis_guardian::guardian_ui::network::{ExposedPort, NetworkSentinel};
use aegis_guardian::guardian_ui::process_control::{
    after_sigkill, after_sigterm, terminate_process, unsupported_platform, KillOutcome,
    TerminateStep,
};
use aegis_guardian::guardian_ui::quarantine::{
    move_to_quarantine, quarantine_step, QuarantineEvent, QuarantineStage,
};
use aegis_guardian::guardian_ui::whitelist::{
    db_path_for, format_approval_time, stale_ports, unix_to_datetime, whitelist_row, zero_pad,
};

const LSOF: &str = "p123\ncnode\nn*:3000\nn127.0.0.1:3000\nn[::1]:8080\np456\ncpostgres\nn127.0.0.1:5432\nn*:5432\nnbogus\np999x\nn*:22\n";

#[test]
fn lsof_output_is_parsed_into_unique_ports() {
    let s = NetworkSentinel::new();
    let ports = s.parse_lsof_output(LSOF);
    let got: Vec<(u16, u32, String, bool, bool)> = ports
        .iter()
        .map(|p| (p.port, p.pid, p.process_name.clone(), p.is_risky, p.ignored))
        .collect();
    assert_eq!(
        got,
        vec![
            (3000, 123, "node".to_string(), false, false),
            (8080, 123, "node".to_string(), true, false),
            (5432, 456, "postgres".to_string(), true, false),
            (22, 456, "postgres".to_string(), true, false),
        ]
    );
    assert_eq!(s.scan_local_ports(LSOF.as_bytes()).len(), 4);
    assert!(s.scan_local_ports(b"").is_empty());
    assert!(s.is_monitored(1433));
    assert!(!s.is_monitored(3000));
}

#[test]
fn whitelisted_ports_are_marked_ignored() {
    let ports = NetworkSentinel::new().parse_lsof_output(LSOF);
    let pairs = listening_pairs(&ports);
    assert_eq!(pairs, vec![(3000, 123), (8080, 123), (5432, 456), (22, 456)]);
    let marked = mark_whitelisted(ports, &vec![(8080, 123), (22, 1)]);
    let ignored: Vec<bool> = marked.iter().map(|p: &ExposedPort| p.ignored).collect();
    assert_eq!(ignored, vec![false, true, false, false]);
    assert_eq!(whitelisted_port_numbers(&vec![(3000, 1), (8080, 2)]), vec![3000, 8080]);
}

#[test]
fn test_add_and_get_whitelist_staleness() {
    // Approvals (3000, 1234) and (8080, 5678); only (8080, 5678) still listens.
    let stored = vec![(3000u16, 1234u32), (8080, 5678)];
    assert_eq!(stale_ports(&stored, &vec![(8080, 5678), (22, 1)]), vec![3000]);
    assert_eq!(stale_ports(&stored, &vec![(3000, 999)]), vec![3000, 8080]);
    assert!(stale_ports(&stored, &stored).is_empty());
    assert_eq!(whitelist_row(3000, 1234), (3000, 1234));
    assert_eq!(whitelist_row(65536 + 80, -1), (80, u32::MAX));
}

#[test]
fn approval_times_use_the_simple_calendar() {
    assert_eq!(unix_to_datetime(0), (1970, 1, 1, 0, 0, 0));
    assert_eq!(unix_to_datetime(1700000000), (2023, 12, 1, 22, 13, 20));
    assert_eq!(format_approval_time(1700000000), "2023-12-01 22:13:20");
    assert_eq!(format_approval_time(0), "1970-01-01 00:00:00");
    assert_eq!(zero_pad(7, 2), "07");
    assert_eq!(zero_pad(12345, 2), "12345");
    assert_eq!(
        db_path_for(Some("/home/alice".to_string())),
        "/home/alice/.aegis-guardian/whitelist.db"
    );
    assert_eq!(db_path_for(None), "./.aegis-guardian/whitelist.db");
}

fn finished(step: TerminateStep) -> (bool, u32, String) {
    match step {
        TerminateStep::Finish(r) => (r.success, r.pid, r.message),
        TerminateStep::Kill { signal } => panic!("unexpected kill -{signal}"),
    }
}

#[test]
fn termination_refuses_critical_pids_and_escalates() {
    assert_eq!(
        finished(terminate_process(1)),
        (false, 1, "Action denied: Cannot terminate critical system process (PID 0 or 1).".to_string())
    );
    assert!(matches!(terminate_process(0), TerminateStep::Finish(_)));
    assert!(matches!(terminate_process(4242), TerminateStep::Kill { signal: 15 }));
    assert_eq!(
        finished(after_sigterm(4242, KillOutcome::Exited { success: true, code: Some(0) })),
        (true, 4242, "Process terminated successfully (SIGTERM).".to_string())
    );
    assert!(matches!(
        after_sigterm(4242, KillOutcome::Exited { success: false, code: Some(1) }),
        TerminateStep::Kill { signal: 9 }
    ));
    assert_eq!(
        finished(after_sigterm(4242, KillOutcome::SpawnFailed("not found".to_string()))),
        (false, 4242, "Failed to execute kill command: not found".to_string())
    );
    let r = after_sigkill(4242, KillOutcome::Exited { success: false, code: Some(1) });
    assert!(!r.success);
    assert_eq!(r.message, "Failed to force-terminate. Exit code: Some(1)");
    let r = after_sigkill(4242, KillOutcome::Exited { success: false, code: None });
    assert_eq!(r.message, "Failed to force-terminate. Exit code: None");
    let r = after_sigkill(4242, KillOutcome::Exited { success: true, code: Some(0) });
    assert!(r.success);
    assert_eq!(r.message, "Process force-terminated (SIGKILL).");
    assert!(!unsupported_platform(3).success);
}

fn run_quarantine(path: &str, events: Vec<QuarantineEvent>) -> QuarantineStage {
    let mut stage = move_to_quarantine();
    for e in events {
        stage = quarantine_step(path, stage, e);
    }
    stage
}

#[test]
fn quarantine_flow_renames_into_desktop_folder() {
    let path = "/Users/alice/Downloads/evil.sh";
    let stage = run_quarantine(
        path,
        vec![
            QuarantineEvent::SourceExists(true),
            QuarantineEvent::Home(Some("/Users/alice".to_string())),
            QuarantineEvent::DirEnsured(Ok(())),
        ],
    );
    match &stage {
        QuarantineStage::CheckDest { dir, name } => {
            assert_eq!(dir, "/Users/alice/Desktop/AI_Security_Guardian/quarantine");
            assert_eq!(name, "evil.sh");
        }
        _ => panic!("expected CheckDest"),
    }
    let stage = quarantine_step(path, stage, QuarantineEvent::DestExists { exists: true, now_secs: 99 });
    assert!(matches!(stage, QuarantineStage::ListDir { now_secs: 99, .. }));
    let stage = quarantine_step(
        path,
        stage,
        QuarantineEvent::Listed(vec!["evil.sh".to_string(), "notes".to_string()]),
    );
    match &stage {
        QuarantineStage::Rename { dest } => {
            assert_eq!(dest, "/Users/alice/Desktop/AI_Security_Guardian/quarantine/99_evil.sh")
        }
        _ => panic!("expected Rename"),
    }
    match quarantine_step(path, stage, QuarantineEvent::Renamed(Ok(()))) {
        QuarantineStage::Done(r) => {
            assert!(r.success);
            assert_eq!(r.original_path, path);
            assert_eq!(
                r.quarantine_path.as_deref(),
                Some("/Users/alice/Desktop/AI_Security_Guardian/quarantine/99_evil.sh")
            );
            assert_eq!(r.message, "File successfully moved to quarantine.");
        }
        _ => panic!("expected Done"),
    }
}

#[test]
fn quarantine_flow_failures_and_fallback() {
    let path = "/data/x.bin";
    match run_quarantine(path, vec![QuarantineEvent::SourceExists(false)]) {
        QuarantineStage::Done(r) => {
            assert!(!r.success);
            assert_eq!(r.message, "File does not exist.");
            assert!(r.quarantine_path.is_none());
        }
        _ => panic!(),
    }
    match run_quarantine(path, vec![QuarantineEvent::SourceExists(true), QuarantineEvent::Home(None)]) {
        QuarantineStage::Done(r) => assert_eq!(r.message, "Could not determine HOME directory."),
        _ => panic!(),
    }
    let stage = run_quarantine(
        path,
        vec![
            QuarantineEvent::SourceExists(true),
            QuarantineEvent::Home(Some("/h".to_string())),
            QuarantineEvent::DirEnsured(Ok(())),
            QuarantineEvent::DestExists { exists: false, now_secs: 1 },
            QuarantineEvent::Renamed(Err("Invalid cross-device link (os error 18)".to_string())),
        ],
    );
    assert!(matches!(stage, QuarantineStage::Copy { .. }));
    let stage = quarantine_step(path, stage, QuarantineEvent::Copied(true));
    assert!(matches!(stage, QuarantineStage::RemoveSource { .. }));
    match quarantine_step(path, stage, QuarantineEvent::SourceRemoved(true)) {
        QuarantineStage::Done(r) => {
            assert!(r.success);
            assert_eq!(r.quarantine_path.as_deref(), Some("/h/Desktop/AI_Security_Guardian/quarantine/x.bin"));
            assert_eq!(r.message, "File successfully moved (copy+delete fallback) to quarantine.");
        }
        _ => panic!(),
    }
    let stage = run_quarantine(
        path,
        vec![
            QuarantineEvent::SourceExists(true),
            QuarantineEvent::Home(Some("/h".to_string())),
            QuarantineEvent::DirEnsured(Ok(())),
            QuarantineEvent::DestExists { exists: false, now_secs: 1 },
            QuarantineEvent::Renamed(Err("EXDEV".to_string())),
            QuarantineEvent::Copied(false),
        ],
    );
    match stage {
        QuarantineStage::Done(r) => {
            assert!(!r.success);
            assert_eq!(r.message, "Failed to move file to quarantine: EXDEV");
        }
        _ => panic!(),
    }
    match run_quarantine(
        "/",
        vec![
            QuarantineEvent::SourceExists(true),
            QuarantineEvent::Home(Some("/h".to_string())),
            QuarantineEvent::DirEnsured(Ok(())),
        ],
    ) {
        QuarantineStage::Done(r) => assert_eq!(r.message, "Invalid file path (no filename)."),
        _ => panic!(),
    }
    match run_quarantine(
        path,
        vec![
            QuarantineEvent::SourceExists(true),
            QuarantineEvent::Home(Some("/h".to_string())),
            QuarantineEvent::DirEnsured(Err("Permission denied".to_string())),
        ],
    ) {
        QuarantineStage::Done(r) => {
            assert_eq!(r.message, "Failed to create quarantine directory: Permission denied")
        }
        _ => panic!(),
    }
}

fn record(module: &str, severity: &str, message: &str, ts: &str) -> IncidentRecord {
    IncidentRecord {
        module: Some(module.to_string()),
        severity: Some(severity.to_string()),
        message: Some(message.to_string()),
        timestamp: Some(ts.to_string()),
        preview: None,
        model: None,
    }
}

#[test]
fn timestamps_are_parsed_to_time_of_day() {
    assert_eq!(
        parse_timestamp("2026-03-30T12:34:56.789123"),
        ("12:34:56".to_string(), 1774874096000)
    );
    assert_eq!(parse_timestamp("2026-03-30T12:34:56"), ("12:34:56".to_string(), 1774874096000));
    assert_eq!(parse_timestamp("yesterday"), ("00:00:00".to_string(), 0));
    assert_eq!(parse_timestamp(""), ("00:00:00".to_string(), 0));
}

#[test]
fn activities_are_sorted_by_category() {
    let records = vec![
        record("Guardian", "INFO", "Log Initialized", "2026-03-30T01:00:00"),
        record("NetworkMonitor", "WARNING", "port 22 open", "2026-03-30T01:00:01"),
        record("ClipboardMonitor", "WARNING", "api key", "2026-03-30T01:00:02"),
        record("VisualSentry", "HIGH", "sudo prompt", "2026-03-30T01:00:03"),
        record("ClipboardMonitor", "CRITICAL", "private key", "2026-03-30T01:00:04"),
        record("Other", "WARNING", "ignored", "2026-03-30T01:00:05"),
        IncidentRecord { module: None, severity: None, message: None, timestamp: None, preview: None, model: None },
    ];
    let a = get_real_activities(&records);
    assert_eq!(a.stats.total_blocked, 2);
    assert_eq!(a.stats.sensitive_keys, 1);
    assert_eq!(a.stats.visual_alerts, 1);
    assert_eq!(a.threats[0].source, "NetworkMonitor");
    assert_eq!(a.threats[0].time, "01:00:01");
    assert_eq!(a.threats[1].desc, "private key");
    assert_eq!(a.keys[0].desc, "api key");
    assert_eq!(a.visual[0].source, "VisualSentry");
    assert_eq!(a.visual[0]._ts, parse_timestamp("2026-03-30T01:00:03").1);
}

#[test]
fn ai_alerts_are_filtered_by_module() {
    let mut r = record("AI_Brain_Clipboard", "CRITICAL", "secret", "2026-03-30T09:08:07.5");
    r.preview = Some("sk-...".to_string());
    r.model = Some("llama3".to_string());
    let alert = ai_alert_from_record(&r).unwrap();
    assert_eq!(alert.time, "09:08:07");
    assert_eq!(alert.module, "AI_Brain_Clipboard");
    assert_eq!(alert.severity, "CRITICAL");
    assert_eq!(alert.preview.as_deref(), Some("sk-..."));
    assert_eq!(alert.model.as_deref(), Some("llama3"));
    let mut no_sev = record("AI_Brain_Visual", "x", "m", "t");
    no_sev.severity = None;
    let records = vec![r, record("ClipboardMonitor", "WARNING", "x", "t"), no_sev];
    let alerts = get_ai_alerts(&records);
    assert_eq!(alerts.len(), 2);
    assert_eq!(alerts[1].severity, "INFO");
    assert_eq!(alerts[1].time, "00:00:00");
    assert_eq!(next_tail_range(10, 25), Some((10, 25)));
    assert_eq!(next_tail_range(25, 25), None);
}

#[test]
fn config_is_rendered_as_yaml() {
    let modules = ModulesConfig { visual: true, clipboard: false, network: true };
    assert_eq!(
        render_config("Silent Monitor", &modules),
        "mode: Silent Monitor\nmodules:\n  visual: true\n  clipboard: false\n  network: true"
    );
    let mut c = GuardianConfig::initial();
    assert_eq!(c.mode, "Silent Monitor");
    let text = c.update_config("Active Defense".to_string(), modules, "");
    assert_eq!(c.mode, "Active Defense");
    assert!(!c.modules.clipboard);
    assert!(text.starts_with("mode: Active Defense\n"));
}

#[test]
fn config_update_keeps_other_sections() {
    let modules = ModulesConfig { visual: true, clipboard: false, network: true };
    let existing = "# Aegis\nmode: Silent Monitor\nmodules:\n  visual: false\nbehavior_firewall:\n  regex_rules:\n    aws: \"AKIA\"\nterminal_rules:\n  - rm -rf\nnetwork_monitor: {ports: [22]}\n";
    let mut c = GuardianConfig::initial();
    let text = c.update_config("Active Defense".to_string(), modules, existing);
    assert_eq!(
        text,
        "mode: Active Defense\nmodules:\n  visual: true\n  clipboard: false\n  network: true\n# Aegis\nbehavior_firewall:\n  regex_rules:\n    aws: \"AKIA\"\nterminal_rules:\n  - rm -rf\nnetwork_monitor: {ports: [22]}"
    );
}

#[test]
fn second_quarantine_of_a_name_in_one_second_gets_a_fresh_name() {
    let path = "/d/evil.sh";
    let stage = run_quarantine(
        path,
        vec![
            QuarantineEvent::SourceExists(true),
            QuarantineEvent::Home(Some("/h".to_string())),
            QuarantineEvent::DirEnsured(Ok(())),
            QuarantineEvent::DestExists { exists: true, now_secs: 5 },
            QuarantineEvent::Listed(vec!["evil.sh".to_string(), "5_evil.sh".to_string()]),
        ],
    );
    match &stage {
        QuarantineStage::Rename { dest } => {
            assert_eq!(dest, "/h/Desktop/AI_Security_Guardian/quarantine/5_1_evil.sh")
        }
        _ => panic!("expected Rename"),
    }
}

#[test]
fn config_and_marker_locations() {
    assert_eq!(config_file_path(Some("/etc/aegis.yaml".to_string()), Some("/r".to_string())), "/etc/aegis.yaml");
    assert_eq!(config_file_path(None, Some("/r".to_string())), "/r/config.yaml");
    assert_eq!(config_file_path(None, None), "../config.yaml");
    assert_eq!(reload_marker_path("/etc/aegis.yaml"), "/etc/.reload_config");
    assert_eq!(reload_marker_path("../config.yaml"), "../.reload_config");
    assert_eq!(reload_marker_path("config.yaml"), ".reload_config");
}

#[test]
fn leap_second_prints_as_sixty() {
    assert_eq!(parse_timestamp("2016-12-31T23:59:60").0, "23:59:60");
}

#[test]
fn lsof_bytes_that_are_not_utf8_become_replacement_characters() {
    let s = NetworkSentinel::new();
    let ports = s.scan_local_ports(b"p7\ncn\xffde\nn*:6379\n");
    assert_eq!(ports.len(), 1);
    assert_eq!(ports[0].process_name, "n\u{FFFD}de");
    assert_eq!(ports[0].pid, 7);
    assert!(ports[0].is_risky);
}
