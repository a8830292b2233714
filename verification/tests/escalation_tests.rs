use anti_power::escalation::{
    annotate_privileged_error, build_script_args, build_terminal_script, can_write_dir,
    escape_applescript_string, flag_text, is_permission_error, privileged_failure, read_status,
    read_wrapper_outcome, select_privileged_script, shell_quote, should_use_privileged, PatchMode,
    ProbeFailure, ProbeOutcome,
};
use anti_power::i18n::{Catalogs, CommandError};
use anti_power::paths::Platform;

fn escalation_catalogs() -> Catalogs {
    let en = r#"{"patchBackend": {"errors": {
        "macosPermissionHint": "{message} (allow access to {path})",
        "privilegedScriptFailed": "Elevated run failed: {message}",
        "pkexecNotFound": "pkexec not found"
    }}}"#;
    Catalogs { zh: serde_json::Value::Null, en: serde_json::from_str(en).unwrap() }
}

fn escalation_localized(e: &CommandError) -> (String, Vec<(String, String)>) {
    match e {
        CommandError::Localized { key, vars } => (key.clone(), vars.clone()),
        CommandError::Raw(text) => panic!("a key was expected, not {:?}", text),
    }
}

#[test]
fn patch_mode_words() {
    assert_eq!(PatchMode::Install.as_str(), "install");
    assert_eq!(PatchMode::Uninstall.as_str(), "uninstall");
    assert_eq!(PatchMode::UpdateConfig.as_str(), "update-config");
}

#[test]
fn permission_errors_are_told_by_their_details() {
    let denied = CommandError::key_with(
        "patchBackend.errors.writeFileFailed",
        &[("detail", "\"/x\": Permission denied (os error 13)".to_string())],
    );
    assert!(is_permission_error(&denied));
    assert!(is_permission_error(&CommandError::Raw("Operation not permitted".to_string())));
    assert!(is_permission_error(&CommandError::Raw("Read-only file system (os error 30)".to_string())));
    assert!(!is_permission_error(&CommandError::Raw("No such file or directory".to_string())));
    assert!(!is_permission_error(&CommandError::key("permission denied")));
    let spread = CommandError::key_with(
        "k",
        &[("a", "permission".to_string()), ("b", "denied".to_string())],
    );
    assert!(!is_permission_error(&spread));
}

#[test]
fn system_owned_roots_are_told_by_their_prefix() {
    for root in [
        "/Applications/Antigravity.app/Contents/Resources/app",
        "/System/Applications/x",
        "/Library/x",
        "/System/x",
        "/usr/share/antigravity/resources/app",
        "/opt/Antigravity/resources/app",
        "/lib/x",
        "/lib64/x",
        "/var/x",
        "/snap/x",
    ] {
        assert!(should_use_privileged(root, Platform::Linux), "{}", root);
        assert!(should_use_privileged(root, Platform::MacOs), "{}", root);
        assert!(!should_use_privileged(root, Platform::Windows), "{}", root);
        assert!(!should_use_privileged(root, Platform::Other), "{}", root);
    }
    for root in ["/home/u/antigravity/resources/app", "/usr", "/optional/x", "usr/x", ""] {
        assert!(!should_use_privileged(root, Platform::Linux), "{}", root);
    }
}

#[test]
fn probe_outcomes_are_classified() {
    let failed = |kind| ProbeOutcome::Failed { kind, detail: "No space left".to_string() };
    assert!(matches!(can_write_dir("/d", &ProbeOutcome::Writable), Ok(true)));
    assert!(matches!(can_write_dir("/d", &failed(ProbeFailure::PermissionDenied)), Ok(false)));
    assert!(matches!(can_write_dir("/d", &failed(ProbeFailure::ReadOnlyFilesystem)), Ok(false)));
    let e = can_write_dir("/d", &failed(ProbeFailure::Other)).unwrap_err();
    let (key, vars) = escalation_localized(&e);
    assert_eq!(key, "patchBackend.errors.cannotWriteDir");
    assert_eq!(vars, vec![("detail".to_string(), "/d: No space left".to_string())]);
}

#[test]
fn script_is_selected_by_locale() {
    assert_eq!(select_privileged_script(None), "anti-power.sh");
    assert_eq!(select_privileged_script(Some("zh-CN")), "anti-power.sh");
    assert_eq!(select_privileged_script(Some("en-US")), "anti-power.en.sh");
}

#[test]
fn script_args_are_a_fixed_vector() {
    assert_eq!(
        build_script_args(PatchMode::Install, "/opt/ag/resources/app", true, false),
        vec![
            "--mode",
            "install",
            "--app-path",
            "/opt/ag/resources/app",
            "--cascade-enabled",
            "true",
            "--manager-enabled",
            "false"
        ]
    );
    assert_eq!(
        build_script_args(PatchMode::UpdateConfig, "", false, true),
        vec![
            "--mode",
            "update-config",
            "--app-path",
            "",
            "--cascade-enabled",
            "false",
            "--manager-enabled",
            "true"
        ]
    );
    assert_eq!(flag_text(true), "true");
    assert_eq!(flag_text(false), "false");
}

#[test]
fn shell_quote_wraps_in_single_quotes() {
    assert_eq!(shell_quote(""), "''");
    assert_eq!(shell_quote("abc"), "'abc'");
    assert_eq!(shell_quote("a b"), "'a b'");
    assert_eq!(shell_quote("it's"), "'it'\\''s'");
    assert_eq!(shell_quote("'"), "''\\'''");
    assert_eq!(shell_quote("$HOME \"x\""), "'$HOME \"x\"'");
}

#[test]
fn applescript_escape_doubles_backslashes_first() {
    assert_eq!(escape_applescript_string("plain"), "plain");
    assert_eq!(escape_applescript_string("a\"b"), "a\\\"b");
    assert_eq!(escape_applescript_string("a\\b"), "a\\\\b");
    assert_eq!(escape_applescript_string("\\\""), "\\\\\\\"");
    assert_eq!(
        escape_applescript_string("it's \"q\" \\"),
        "it's \"q\" \\".replace('\\', "\\\\").replace('"', "\\\"")
    );
}

#[test]
fn terminal_script_runs_sudo_and_records_the_exit_code() {
    let args = vec!["--mode".to_string(), "install".to_string(), "it's".to_string()];
    let got = build_terminal_script("/tmp/s p/anti-power.sh", &args, "/tmp/s p/status.txt");
    let command = "sudo '/bin/bash' '/tmp/s p/anti-power.sh' '--mode' 'install' 'it'\\''s' ; echo $? > '/tmp/s p/status.txt'";
    let expected = format!(
        "tell application \"Terminal\"\nactivate\ndo script \"{}\"\nend tell",
        command.replace('\\', "\\\\").replace('"', "\\\"")
    );
    assert_eq!(got, expected);
}

#[test]
fn status_file_states_the_exit_code() {
    assert!(read_status("0\n").is_none());
    assert!(read_status("  0  ").is_none());
    assert!(read_status("+0").is_none());
    for (content, code) in [("1\n", "1"), ("127", "127"), ("-3", "-3"), ("", "1"), ("zero", "1"), ("0 0", "1"), ("99999999999", "1")] {
        let e = read_status(content).expect("not a success");
        let (key, vars) = escalation_localized(&e);
        assert_eq!(key, "patchBackend.errors.terminalCommandFailedCode");
        assert_eq!(vars, vec![("code".to_string(), code.to_string())]);
    }
}

#[test]
fn wrapper_outcome_prefers_the_error_output() {
    assert!(read_wrapper_outcome(true, "anything", "anything").is_none());
    match read_wrapper_outcome(false, " out \n", " err \n") {
        Some(CommandError::Raw(text)) => assert_eq!(text, "err"),
        other => panic!("{:?}", other),
    }
    match read_wrapper_outcome(false, " out \n", "  \n") {
        Some(CommandError::Raw(text)) => assert_eq!(text, "out"),
        other => panic!("{:?}", other),
    }
    let e = read_wrapper_outcome(false, "", " ").expect("a failure");
    let (key, vars) = escalation_localized(&e);
    assert_eq!(key, "patchBackend.errors.privilegedCanceledOrFailed");
    assert!(vars.is_empty());
}

#[test]
fn macos_permission_errors_get_a_hint() {
    let c = escalation_catalogs();
    let e = CommandError::Raw("cp: Operation not permitted".to_string());
    assert_eq!(
        annotate_privileged_error(&e, "/Applications/x", Some("en"), Platform::MacOs, &c),
        "cp: Operation not permitted (allow access to /Applications/x)"
    );
    assert_eq!(
        annotate_privileged_error(&e, "/Applications/x", Some("en"), Platform::Linux, &c),
        "cp: Operation not permitted"
    );
    let zh = CommandError::Raw("没有权限".to_string());
    assert_eq!(
        annotate_privileged_error(&zh, "/r", Some("en"), Platform::MacOs, &c),
        "没有权限 (allow access to /r)"
    );
    let other = CommandError::Raw("exit 2".to_string());
    assert_eq!(annotate_privileged_error(&other, "/r", Some("en"), Platform::MacOs, &c), "exit 2");
    let keyed = CommandError::key("patchBackend.errors.pkexecNotFound");
    assert_eq!(
        annotate_privileged_error(&keyed, "/r", Some("en"), Platform::Linux, &c),
        "pkexec not found"
    );
}

#[test]
fn privileged_failure_carries_the_message() {
    let c = escalation_catalogs();
    let cause = CommandError::Raw("boom".to_string());
    let e = privileged_failure(&cause, "/r", Some("en"), Platform::Linux, &c);
    let (key, vars) = escalation_localized(&e);
    assert_eq!(key, "patchBackend.errors.privilegedScriptFailed");
    assert_eq!(vars, vec![("message".to_string(), "boom".to_string())]);
    assert_eq!(e.to_message(Some("en"), &c), "Elevated run failed: boom");
}
