use aegis_guardian::guardian_ui::dashboard::ModulesConfig;
use aegis_guardian::ui::checksum::{
    directory_checksum, file_checksum, relative_entry_path, sort_by_path, DirEntryDigest,
};
use aegis_guardian::ui::dashboard::{
    mitigate_process, parse_mitigation, render_config_with_paths, FileIntegrityConfig,
    GuardianConfig, Mitigation,
};
use aegis_guardian::ui::file_integrity::{
    accept_file_integrity_change, baseline_storage_path, check_file_integrity,
    compute_existing_hashes, export_file_integrity_report, monitored_paths,
    rebuild_file_integrity_baseline, report_path, ChecksumBaseline, PathObservation, PathStatus,
};
use aegis_guardian::ui::process_control::{
    incident_log_under, after_sigkill, after_sigterm, protected_pid_reason, terminate_process, TerminateStep,
};
use aegis_guardian::guardian_ui::process_control::KillOutcome;

const ALPHA: &str = "8ed3f6ad685b959ead7022518e1af76cd816f8e8ec7ccdda1ed4018e8f2223f8";

fn entry(p: &str, size: u64, digest: &str) -> DirEntryDigest {
    DirEntryDigest { relative_path: p.to_string(), size, digest: digest.to_string() }
}

#[test]
fn directory_hash_changes_when_nested_file_content_changes() {
    let before = directory_checksum(vec![entry("nested/config.txt", 5, &file_checksum(b"alpha"))]);
    let after = directory_checksum(vec![entry("nested/config.txt", 4, &file_checksum(b"beta"))]);
    assert_ne!(before, after);
    assert_eq!(file_checksum(b"alpha"), ALPHA);
    assert_eq!(before, "2599c2ba81f28261af7b556d3804614d9c61e08ff78c53c2bd5f439af736ad17");
}

#[test]
fn directory_checksum_ignores_listing_order() {
    let a = vec![entry("b.txt", 1, "11"), entry("a/z.txt", 2, "22"), entry("a.txt", 3, "33")];
    let b = vec![entry("a.txt", 3, "33"), entry("b.txt", 1, "11"), entry("a/z.txt", 2, "22")];
    assert_eq!(directory_checksum(a), directory_checksum(b));
    let sorted = sort_by_path(vec![entry("b", 1, ""), entry("a/b", 2, ""), entry("a", 3, ""), entry("a", 4, "")]);
    let order: Vec<(String, u64)> = sorted.iter().map(|e| (e.relative_path.clone(), e.size)).collect();
    assert_eq!(
        order,
        vec![("a".to_string(), 3), ("a".to_string(), 4), ("a/b".to_string(), 2), ("b".to_string(), 1)]
    );
    assert_eq!(relative_entry_path("/root/d/x\\y.txt", "/root"), "d/x/y.txt");
    assert_eq!(relative_entry_path("/other/x", "/root"), "/other/x");
}

fn present(path: &str, secs: u64, checksum: Option<&str>) -> PathObservation {
    PathObservation {
        path: path.to_string(),
        status: PathStatus::Present { modified_secs: secs, checksum: checksum.map(|c| c.to_string()) },
    }
}

#[test]
fn integrity_check_records_verifies_and_warns() {
    let mut baseline = ChecksumBaseline::new();
    let other = file_checksum(b"beta");
    let obs = vec![
        present("/etc/hosts", 100, Some(ALPHA)),
        PathObservation { path: "/missing".to_string(), status: PathStatus::Inaccessible },
        present("/etc/passwd", 200, None),
    ];
    let (alerts, updated) = check_file_integrity(&mut baseline, &obs);
    assert!(updated);
    assert_eq!(alerts.len(), 3);
    assert_eq!(alerts[0].status, "OK");
    assert_eq!(alerts[0].message, "Baseline recorded (sha256: 8ed3f6ad685b...)");
    assert_eq!(alerts[0].last_modified, "100");
    assert_eq!(alerts[1].status, "INFO");
    assert_eq!(alerts[1].last_modified, "N/A");
    assert_eq!(alerts[1].message, "File not found or inaccessible");
    assert_eq!(alerts[2].message, "Cannot compute checksum (permission denied)");
    assert_eq!(baseline.len(), 1);

    let (alerts, updated) = check_file_integrity(&mut baseline, &vec![present("/etc/hosts", 101, Some(ALPHA))]);
    assert!(!updated);
    assert_eq!(alerts[0].message, "Checksum verified (sha256: 8ed3f6ad685b...)");

    let (alerts, updated) = check_file_integrity(&mut baseline, &vec![present("/etc/hosts", 102, Some(&other))]);
    assert!(!updated);
    assert_eq!(alerts[0].status, "WARNING");
    assert_eq!(alerts[0].message, "Checksum mismatch! expected 8ed3f6ad685b... got f44e64e75f39...");

    let r = accept_file_integrity_change(&mut baseline, "/etc/hosts", Some(other.clone()));
    assert!(r.success);
    assert_eq!(r.affected, 1);
    assert_eq!(baseline.get("/etc/hosts"), Some(&other));
    let r = accept_file_integrity_change(&mut baseline, "/etc/hosts", None);
    assert!(!r.success);
    assert_eq!(r.message, "Cannot compute checksum for selected path.");
}

#[test]
fn baseline_rebuild_counts_distinct_paths() {
    let checksums = vec![
        ("/a".to_string(), Some("h1".to_string())),
        ("/b".to_string(), None),
        ("/a".to_string(), Some("h2".to_string())),
        ("/c".to_string(), Some("h3".to_string())),
    ];
    let b = compute_existing_hashes(&checksums);
    assert_eq!(b.len(), 2);
    assert_eq!(b.get("/a"), Some(&"h2".to_string()));
    let (b2, r) = rebuild_file_integrity_baseline(&checksums);
    assert_eq!(b2.len(), 2);
    assert!(r.success);
    assert_eq!(r.affected, 2);
    assert_eq!(r.message, "File integrity baseline rebuilt.");
    let restored = ChecksumBaseline::from_pairs(b2.pairs().clone());
    assert_eq!(restored.len(), 2);
}

#[test]
fn monitored_paths_and_storage_locations() {
    let paths = monitored_paths(
        Some("/Users/al".to_string()),
        &vec!["/etc/hosts".to_string(), "/opt/app".to_string(), "/opt/app".to_string()],
    );
    assert_eq!(
        paths,
        vec![
            "/etc/hosts",
            "/etc/passwd",
            "/Users/al/.ssh/authorized_keys",
            "/Users/al/.bash_profile",
            "/Users/al/.zshrc",
            "/Users/al/Library/LaunchAgents",
            "/Library/LaunchDaemons",
            "/opt/app",
        ]
    );
    assert_eq!(monitored_paths(None, &vec![]).len(), 3);
    assert_eq!(baseline_storage_path(Some("/x.json".to_string()), None), "/x.json");
    assert_eq!(
        baseline_storage_path(None, Some("/home/u".to_string())),
        "/home/u/.aegis-guardian/file_checksums.json"
    );
    assert_eq!(report_path(None), "./.aegis-guardian/file_integrity_report.json");
    let r = export_file_integrity_report("/r.json", Some("denied".to_string()), None, 3);
    assert_eq!(r.message, "Failed to create report directory: denied");
    let r = export_file_integrity_report("/r.json", None, None, 3);
    assert!(r.success);
    assert_eq!(r.affected, 3);
    assert_eq!(r.message, "/r.json");
}

#[test]
fn protected_processes_are_refused_and_audited() {
    assert_eq!(
        protected_pid_reason(1, 50, None).as_deref(),
        Some("Cannot terminate critical system process (PID 0 or 1).")
    );
    assert_eq!(
        protected_pid_reason(50, 50, None).as_deref(),
        Some("Cannot terminate the guardian UI process.")
    );
    assert_eq!(
        protected_pid_reason(77, 50, Some(b"  /usr/libexec/syslogd\n")).as_deref(),
        Some("Cannot terminate protected process: /usr/libexec/syslogd")
    );
    assert_eq!(protected_pid_reason(77, 50, Some(b"python3\n")), None);
    match terminate_process(77, 50, Some(b"launchd\n")) {
        TerminateStep::Finish { result, audit } => {
            assert!(!result.success);
            assert_eq!(result.message, "Action denied: Cannot terminate protected process: launchd");
            assert_eq!(audit.message, "Process termination denied: Cannot terminate protected process: launchd");
            assert_eq!(audit.severity(), "ERROR");
            assert_eq!(audit.pid, 77);
        }
        _ => panic!(),
    }
    assert!(matches!(terminate_process(77, 50, Some(b"python3")), TerminateStep::Kill { signal: 15 }));
    assert!(matches!(
        after_sigterm(77, KillOutcome::Exited { success: false, code: Some(1) }),
        TerminateStep::Kill { signal: 9 }
    ));
    match after_sigkill(77, KillOutcome::Exited { success: true, code: Some(0) }) {
        TerminateStep::Finish { result, audit } => {
            assert!(result.success);
            assert_eq!(audit.severity(), "WARNING");
            assert_eq!(audit.message, "Process force-terminated (SIGKILL).");
        }
        _ => panic!(),
    }
}

#[test]
fn mitigation_actions() {
    assert!(matches!(parse_mitigation("kill"), Ok(Mitigation::Kill)));
    assert!(matches!(parse_mitigation("isolate"), Ok(Mitigation::Isolate)));
    assert!(matches!(parse_mitigation("resume"), Ok(Mitigation::Resume)));
    assert_eq!(parse_mitigation("nuke").err().as_deref(), Some("Unknown action"));
    assert_eq!(Mitigation::Isolate.signal_arg(), "-STOP");
    assert_eq!(mitigate_process(Mitigation::Kill, 42, Ok(true)), Ok("Killed PID 42".to_string()));
    assert_eq!(
        mitigate_process(Mitigation::Isolate, 42, Ok(true)),
        Ok("Isolated (Suspended) PID 42".to_string())
    );
    assert_eq!(mitigate_process(Mitigation::Resume, 42, Ok(false)), Err("Failed to resume PID 42".to_string()));
    assert_eq!(mitigate_process(Mitigation::Kill, 42, Err("spawn".to_string())), Err("spawn".to_string()));
}

#[test]
fn config_with_custom_paths() {
    let m = ModulesConfig { visual: false, clipboard: true, network: true };
    assert_eq!(
        render_config_with_paths("Silent Monitor", &m, &vec![]),
        "mode: Silent Monitor\nmodules:\n  visual: false\n  clipboard: true\n  network: true\n\nfile_integrity:\n  custom_paths: []"
    );
    assert_eq!(
        render_config_with_paths("X", &m, &vec!["/a".to_string(), "/b c".to_string()]),
        "mode: X\nmodules:\n  visual: false\n  clipboard: true\n  network: true\n\nfile_integrity:\n  custom_paths:\n    - \"/a\"\n    - \"/b c\""
    );
    let mut c = GuardianConfig::initial();
    let text = c.update_config(
        "Y".to_string(),
        m,
        FileIntegrityConfig { custom_paths: vec!["/z".to_string()] },
        "mode: old\nfile_integrity:\n  custom_paths:\n    - \"/old\"\n  interval: 60\nterminal_rules:\n  - nc -e\n",
    );
    assert_eq!(c.file_integrity.custom_paths, vec!["/z".to_string()]);
    assert!(text.ends_with("    - \"/z\"\n  interval: 60\nterminal_rules:\n  - nc -e"));
    assert!(!text.contains("/old"));
}

#[test]
fn accepted_change_is_verified_on_next_check() {
    let mut baseline = ChecksumBaseline::from_pairs(vec![("/etc/hosts".to_string(), ALPHA.to_string())]);
    let changed = file_checksum(b"beta");
    let r = accept_file_integrity_change(&mut baseline, "/etc/hosts", Some(changed.clone()));
    assert!(r.success);
    let (alerts, updated) = check_file_integrity(&mut baseline, &vec![present("/etc/hosts", 7, Some(&changed))]);
    assert!(!updated);
    assert_eq!(alerts[0].status, "OK");
    assert_eq!(alerts[0].message, "Checksum verified (sha256: f44e64e75f39...)");
    assert_eq!(baseline.len(), 1);
}

#[test]
fn matching_checksums_raise_no_warning() {
    let beta = file_checksum(b"beta");
    let mut baseline = ChecksumBaseline::from_pairs(vec![
        ("/etc/hosts".to_string(), ALPHA.to_string()),
        ("/etc/passwd".to_string(), beta.clone()),
    ]);
    let obs = vec![
        present("/etc/passwd", 1, Some(&beta)),
        PathObservation { path: "/gone".to_string(), status: PathStatus::Inaccessible },
        present("/etc/hosts", 2, Some(ALPHA)),
        present("/etc/hosts", 3, None),
    ];
    let (alerts, updated) = check_file_integrity(&mut baseline, &obs);
    assert!(!updated);
    assert_eq!(alerts.len(), 4);
    assert!(alerts.iter().all(|a| a.status != "WARNING"));
    assert_eq!(baseline.len(), 2);
}

#[test]
fn stored_checksum_is_cut_at_twelve_bytes() {
    // "é" takes two bytes, so byte twelve falls after six of them.
    let stored = "éééééééééé".to_string();
    let mut baseline = ChecksumBaseline::from_pairs(vec![("/etc/hosts".to_string(), stored)]);
    let (alerts, _) = check_file_integrity(&mut baseline, &vec![present("/etc/hosts", 5, Some(ALPHA))]);
    assert_eq!(alerts[0].message, "Checksum mismatch! expected éééééé... got 8ed3f6ad685b...");
}

#[test]
fn audit_log_location() {
    assert_eq!(incident_log_under(Some("/work/aegis".to_string())), "/work/aegis/logs/incidents.json");
    assert_eq!(incident_log_under(None), "../logs/incidents.json");
}

#[test]
fn directory_hash_changes_on_add_remove_and_rename() {
    let d = file_checksum(b"alpha");
    let base = vec![entry("a/x.txt", 5, &d)];
    let renamed = vec![entry("a/y.txt", 5, &d)];
    let added = vec![entry("a/x.txt", 5, &d), entry("b.txt", 0, &file_checksum(b""))];
    let h = directory_checksum(base.clone());
    assert_ne!(h, directory_checksum(renamed));
    assert_ne!(h, directory_checksum(added));
    assert_ne!(h, directory_checksum(vec![]));
    assert_eq!(h.len(), 64);
    assert!(h.chars().all(|c| c.is_ascii_hexdigit() && !c.is_ascii_uppercase()));
    assert_eq!(file_checksum(b""), "e3b0c44298fc1c149afbf4c8996fb92427ae41e4649b934ca495991b7852b855");
}
