use anti_power::clean::{
    check_running_windows, clean_script_outcome, run_anti_clean_internal,
    sqlite_clean_and_count, CleanTargets,
};
use anti_power::i18n::CommandError;
use anti_power::numbers::parse_i64;
use anti_power::paths::Platform;

fn clean_targets(antigravity: bool, gemini: bool, codex: bool, claude: bool) -> CleanTargets {
    CleanTargets { antigravity, gemini, codex, claude }
}

#[test]
fn clean_targets_have_any() {
    assert!(!clean_targets(false, false, false, false).has_any());
    assert!(clean_targets(true, false, false, false).has_any());
    assert!(clean_targets(false, true, false, false).has_any());
    assert!(clean_targets(false, false, true, false).has_any());
    assert!(clean_targets(false, false, false, true).has_any());
}

#[test]
fn cleaning_needs_a_target_and_a_platform() {
    match run_anti_clean_internal(&clean_targets(false, false, false, false), Platform::Linux) {
        Some(CommandError::Localized { key, .. }) => assert_eq!(key, "cleanBackend.errors.noTarget"),
        other => panic!("{:?}", other),
    }
    match run_anti_clean_internal(&clean_targets(true, false, false, false), Platform::Other) {
        Some(CommandError::Localized { key, .. }) => {
            assert_eq!(key, "cleanBackend.errors.unsupportedPlatform")
        }
        other => panic!("{:?}", other),
    }
    match run_anti_clean_internal(&clean_targets(false, false, false, false), Platform::Other) {
        Some(CommandError::Localized { key, .. }) => assert_eq!(key, "cleanBackend.errors.noTarget"),
        other => panic!("{:?}", other),
    }
    for platform in [Platform::Linux, Platform::MacOs, Platform::Windows] {
        assert!(run_anti_clean_internal(&clean_targets(false, false, true, false), platform).is_none());
    }
}

#[test]
fn clean_script_outcome_reports_what_was_said() {
    assert_eq!(clean_script_outcome(true, " done \n", "warn").unwrap(), "done");
    match clean_script_outcome(false, " out \n", "") {
        Err(CommandError::Raw(text)) => assert_eq!(text, "out"),
        other => panic!("{:?}", other),
    }
    match clean_script_outcome(false, "  ", " err\n") {
        Err(CommandError::Raw(text)) => assert_eq!(text, "err"),
        other => panic!("{:?}", other),
    }
    match clean_script_outcome(false, "out\n", "err\n") {
        Err(CommandError::Raw(text)) => assert_eq!(text, "out\nerr"),
        other => panic!("{:?}", other),
    }
    match clean_script_outcome(false, "", "") {
        Err(CommandError::Raw(text)) => assert_eq!(text, ""),
        other => panic!("{:?}", other),
    }
}

#[test]
fn running_programs_are_refused() {
    let listing = "system idle process\nantigravity.exe  4242\n";
    assert!(check_running_windows("Codex", "codex", listing, "{name} is running").is_none());
    match check_running_windows("Antigravity", "antigravity", listing, "{name} is running") {
        Some(CommandError::Raw(text)) => assert_eq!(text, "Antigravity is running"),
        other => panic!("{:?}", other),
    }
}

#[test]
fn database_counts_are_the_first_and_last_number() {
    assert_eq!(sqlite_clean_and_count("3\n0\n"), Some((3, 0)));
    assert_eq!(sqlite_clean_and_count("  12 \r\n\r\nnoise\n 7\r\n5"), Some((12, 5)));
    assert_eq!(sqlite_clean_and_count("1\n"), None);
    assert_eq!(sqlite_clean_and_count(""), None);
    assert_eq!(sqlite_clean_and_count("a\nb\n"), None);
    assert_eq!(sqlite_clean_and_count("-1\n+2"), Some((-1, 2)));
    assert_eq!(sqlite_clean_and_count("99999999999999999999\n1\n2"), Some((1, 2)));
}

#[test]
fn parse_i64_agrees_with_std() {
    for text in [
        "0", "-1", "+7", "9223372036854775807", "9223372036854775808", "-9223372036854775808",
        "-9223372036854775809", "", "+", "1x", "18446744073709551616",
    ] {
        assert_eq!(parse_i64(text), text.parse::<i64>().ok(), "{:?}", text);
    }
}
