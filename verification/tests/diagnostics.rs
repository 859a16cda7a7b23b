use apexsu::diagnostics::{
    check_allowlist, check_binary_dir, check_directory_exists, check_kernel_module,
    check_module_dir, check_module_update_dir, check_working_dir, run_diagnostics,
    check_ksud_binary, AllowlistState, BinaryState, CheckStatus, DiagnosticCheck, DiagnosticReport, PathState, SystemProbe,
};

#[test]
fn test_check_status_display() {
    assert_eq!(CheckStatus::Pass.to_string(), "PASS");
    assert_eq!(CheckStatus::Warn.to_string(), "WARN");
    assert_eq!(CheckStatus::Fail.to_string(), "FAIL");
}

#[test]
fn test_report_summary() {
    let report = DiagnosticReport {
        checks: vec![
            DiagnosticCheck {
                name: "a".into(),
                status: CheckStatus::Pass,
                message: "ok".into(),
                suggestion: None,
            },
            DiagnosticCheck {
                name: "b".into(),
                status: CheckStatus::Warn,
                message: "warn".into(),
                suggestion: Some("fix".into()),
            },
            DiagnosticCheck {
                name: "c".into(),
                status: CheckStatus::Fail,
                message: "bad".into(),
                suggestion: Some("fix".into()),
            },
        ],
    };
    assert_eq!(report.summary(), (1, 1, 1));
    assert!(!report.is_healthy());
}

#[test]
fn test_report_healthy() {
    let report = DiagnosticReport {
        checks: vec![DiagnosticCheck {
            name: "a".into(),
            status: CheckStatus::Pass,
            message: "ok".into(),
            suggestion: None,
        }],
    };
    assert!(report.is_healthy());
}

#[test]
fn test_report_to_text() {
    let report = DiagnosticReport {
        checks: vec![DiagnosticCheck {
            name: "test_check".into(),
            status: CheckStatus::Pass,
            message: "all good".into(),
            suggestion: None,
        }],
    };
    let text = report.to_text();
    assert!(text.contains("[PASS] test_check: all good"));
    assert!(text.contains("1 passed, 0 warnings, 0 failures"));
}

#[test]
fn report_text_exact() {
    let report = DiagnosticReport {
        checks: vec![
            DiagnosticCheck {
                name: "a".into(),
                status: CheckStatus::Warn,
                message: "w".into(),
                suggestion: Some("do x".into()),
            },
            DiagnosticCheck {
                name: "b".into(),
                status: CheckStatus::Fail,
                message: "f".into(),
                suggestion: None,
            },
        ],
    };
    assert_eq!(
        report.to_text(),
        "=== ApexSU Diagnostic Report ===\n\n[WARN] a: w\n     \u{2192} do x\n[FAIL] b: f\n\nSummary: 0 passed, 1 warnings, 1 failures\n"
    );
}

#[test]
fn empty_report_is_healthy() {
    let report = DiagnosticReport { checks: vec![] };
    assert!(report.is_healthy());
    assert_eq!(report.summary(), (0, 0, 0));
}

#[test]
fn kernel_module_check() {
    let ok = check_kernel_module(12034);
    assert_eq!(ok.status, CheckStatus::Pass);
    assert_eq!(ok.message, "Kernel module responding, version: 12034");
    assert_eq!(ok.suggestion, None);
    let bad = check_kernel_module(0);
    assert_eq!(bad.status, CheckStatus::Fail);
    assert_eq!(bad.message, "Kernel module not responding (version 0)");
    assert_eq!(check_kernel_module(-1).status, CheckStatus::Fail);
}

#[test]
fn directory_checks() {
    let c = check_directory_exists("x", "/tmp/x", PathState::Missing);
    assert_eq!(c.status, CheckStatus::Fail);
    assert_eq!(c.message, "Directory missing: /tmp/x");
    assert_eq!(c.suggestion, Some("Create directory: mkdir -p /tmp/x".to_string()));
    let c = check_working_dir(PathState::Directory, true);
    assert_eq!(c.name, "working_dir");
    assert_eq!(c.message, "Directory exists: /data/adb/ksu/");
    assert_eq!(c.status, CheckStatus::Pass);
    let c = check_working_dir(PathState::Directory, false);
    assert_eq!(c.name, "working_dir");
    assert_eq!(c.status, CheckStatus::Fail);
    assert_eq!(c.message, "Directory not writable: /data/adb/ksu/");
    assert_eq!(
        c.suggestion.as_deref(),
        Some("Fix permissions so that ksud can write to /data/adb/ksu/")
    );
    assert_eq!(check_working_dir(PathState::Missing, false).message, "Directory missing: /data/adb/ksu/");
    let c = check_binary_dir(PathState::NotDirectory);
    assert_eq!(c.message, "/data/adb/ksu/bin/ exists but is not a directory");
    assert_eq!(c.status, CheckStatus::Fail);
    assert_eq!(check_module_dir(PathState::Directory).name, "module_dir");
}

#[test]
fn module_update_dir_missing_is_fine() {
    let c = check_module_update_dir(PathState::Missing);
    assert_eq!(c.status, CheckStatus::Pass);
    let c = check_module_update_dir(PathState::NotDirectory);
    assert_eq!(c.status, CheckStatus::Fail);
    assert_eq!(c.message, "/data/adb/modules_update/ exists but is not a directory");
}

#[test]
fn allowlist_checks() {
    assert_eq!(check_allowlist(&AllowlistState::Missing).status, CheckStatus::Warn);
    let small = check_allowlist(&AllowlistState::Present(7));
    assert_eq!(small.status, CheckStatus::Warn);
    assert_eq!(small.message, "Allowlist file is very small (7 bytes)");
    let ok = check_allowlist(&AllowlistState::Present(8));
    assert_eq!(ok.status, CheckStatus::Pass);
    assert_eq!(ok.message, "Allowlist file exists (8 bytes)");
    let err = check_allowlist(&AllowlistState::Unreadable("denied".into()));
    assert_eq!(err.status, CheckStatus::Fail);
    assert_eq!(err.message, "Cannot read allowlist metadata: denied");
}

#[test]
fn full_run() {
    let probe = SystemProbe {
        kernel_version: 3,
        working_dir: PathState::Directory,
        working_dir_writable: true,
        binary_dir: PathState::Directory,
        ksud_binary: BinaryState::Executable,
        module_dir: PathState::Directory,
        allowlist: AllowlistState::Missing,
        module_update_dir: PathState::Missing,
    };
    let report = run_diagnostics(&probe);
    let names: Vec<&str> = report.checks.iter().map(|c| c.name.as_str()).collect();
    assert_eq!(
        names,
        vec![
            "kernel_module",
            "working_dir",
            "binary_dir",
            "ksud_binary",
            "module_dir",
            "allowlist",
            "module_update_dir"
        ]
    );
    assert_eq!(report.summary(), (6, 1, 0));
    assert!(report.is_healthy());
}

#[test]
fn full_run_suggestions_and_health() {
    let probe = SystemProbe {
        kernel_version: 0,
        working_dir: PathState::Directory,
        working_dir_writable: true,
        binary_dir: PathState::Missing,
        ksud_binary: BinaryState::NotExecutable,
        module_dir: PathState::Directory,
        allowlist: AllowlistState::Present(2),
        module_update_dir: PathState::Directory,
    };
    let report = run_diagnostics(&probe);
    for c in &report.checks {
        assert_eq!(c.suggestion.is_some(), c.status != CheckStatus::Pass, "{}", c.name);
    }
    assert_eq!(report.summary(), (3, 1, 3));
    assert!(!report.is_healthy());
    assert_eq!(
        report.checks[2].suggestion.as_deref(),
        Some("Create directory: mkdir -p /data/adb/ksu/bin/")
    );
}

#[test]
fn ksud_binary_checks() {
    let ok = check_ksud_binary(BinaryState::Executable);
    assert_eq!(ok.name, "ksud_binary");
    assert_eq!(ok.status, CheckStatus::Pass);
    assert_eq!(ok.message, "ksud binary found: /data/adb/ksud");
    assert_eq!(ok.suggestion, None);
    let c = check_ksud_binary(BinaryState::NotExecutable);
    assert_eq!(c.status, CheckStatus::Fail);
    assert_eq!(c.message, "ksud binary is not executable: /data/adb/ksud");
    assert_eq!(c.suggestion.as_deref(), Some("Restore its permissions: chmod 0755 /data/adb/ksud"));
    let c = check_ksud_binary(BinaryState::NotFile);
    assert_eq!(c.message, "/data/adb/ksud exists but is not a regular file");
    let c = check_ksud_binary(BinaryState::Missing);
    assert_eq!(c.message, "ksud binary missing: /data/adb/ksud");
    assert_eq!(c.suggestion.as_deref(), Some("Reinstall ksud from the manager"));
}

#[test]
fn summary_is_independent_of_order() {
    let check = |name: &str, status: CheckStatus| DiagnosticCheck {
        name: name.into(),
        status,
        message: String::new(),
        suggestion: None,
    };
    let forward = DiagnosticReport {
        checks: vec![
            check("a", CheckStatus::Fail),
            check("b", CheckStatus::Pass),
            check("c", CheckStatus::Warn),
            check("d", CheckStatus::Pass),
        ],
    };
    let mut reversed = forward.checks.clone();
    reversed.reverse();
    let backward = DiagnosticReport { checks: reversed };
    assert_eq!(forward.summary(), (2, 1, 1));
    assert_eq!(backward.summary(), forward.summary());
}
