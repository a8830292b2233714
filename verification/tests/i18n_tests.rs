use anti_power::i18n::{apply_vars, is_zh_locale, text, text_with, Catalogs, CommandError};

fn i18n_catalogs() -> Catalogs {
    Catalogs {
        zh: serde_json::from_str(
            r#"{"patchBackend": {"errors": {"invalidInstallDir": "无效的安装目录", "writeFileFailed": "写入失败: {detail}"}}}"#,
        )
        .unwrap(),
        en: serde_json::from_str(
            r#"{"patchBackend": {"errors": {"invalidInstallDir": "Invalid install directory", "writeFileFailed": "Write failed: {detail}", "two": "{a}{b}{a}", "number": 7}}}"#,
        )
        .unwrap(),
    }
}

#[test]
fn zh_is_the_default_locale() {
    assert!(is_zh_locale(None));
    assert!(is_zh_locale(Some("zh-CN")));
    assert!(is_zh_locale(Some("ZH")));
    assert!(is_zh_locale(Some("Zh_tw")));
    assert!(!is_zh_locale(Some("en-US")));
    assert!(!is_zh_locale(Some("")));
    assert!(!is_zh_locale(Some("z")));
    assert!(!is_zh_locale(Some(" zh")));
}

#[test]
fn text_looks_up_dotted_keys() {
    let c = i18n_catalogs();
    assert_eq!(
        text(Some("en"), "patchBackend.errors.invalidInstallDir", &c),
        "Invalid install directory"
    );
    assert_eq!(text(None, "patchBackend.errors.invalidInstallDir", &c), "无效的安装目录");
    assert_eq!(text(Some("zh-CN"), "patchBackend.errors.invalidInstallDir", &c), "无效的安装目录");
}

#[test]
fn text_falls_back_to_the_key() {
    let c = i18n_catalogs();
    assert_eq!(text(Some("en"), "patchBackend.errors.missing", &c), "patchBackend.errors.missing");
    assert_eq!(text(Some("en"), "patchBackend.errors.number", &c), "patchBackend.errors.number");
    assert_eq!(text(Some("en"), "patchBackend.errors", &c), "patchBackend.errors");
    assert_eq!(text(Some("en"), "", &c), "");
    let empty = Catalogs { zh: serde_json::Value::Null, en: serde_json::Value::Null };
    assert_eq!(text(None, "a.b", &empty), "a.b");
}

#[test]
fn text_with_fills_placeholders() {
    let c = i18n_catalogs();
    assert_eq!(
        text_with(
            Some("en"),
            "patchBackend.errors.writeFileFailed",
            &[("detail", "disk full".to_string())],
            &c
        ),
        "Write failed: disk full"
    );
    assert_eq!(
        text_with(
            Some("en"),
            "patchBackend.errors.two",
            &[("a", "{b}".to_string()), ("b", "x".to_string())],
            &c
        ),
        "xxx"
    );
    assert_eq!(text_with(Some("en"), "no.such.key", &[("a", "1".to_string())], &c), "no.such.key");
}

#[test]
fn apply_vars_replaces_in_order() {
    assert_eq!(
        apply_vars(
            "{name} -> {backup}".to_string(),
            &[("name", "a.db".to_string()), ("backup", "a.db.bak".to_string())]
        ),
        "a.db -> a.db.bak"
    );
    assert_eq!(apply_vars("plain".to_string(), &[]), "plain");
}

#[test]
fn command_error_key_has_no_vars() {
    match CommandError::key("patchBackend.errors.invalidInstallDir") {
        CommandError::Localized { key, vars } => {
            assert_eq!(key, "patchBackend.errors.invalidInstallDir");
            assert!(vars.is_empty());
        }
        CommandError::Raw(_) => panic!("a key was asked for"),
    }
}

#[test]
fn command_error_key_with_keeps_the_vars() {
    match CommandError::key_with("k", &[("detail", "d".to_string()), ("path", "p".to_string())]) {
        CommandError::Localized { key, vars } => {
            assert_eq!(key, "k");
            assert_eq!(
                vars,
                vec![
                    ("detail".to_string(), "d".to_string()),
                    ("path".to_string(), "p".to_string())
                ]
            );
        }
        CommandError::Raw(_) => panic!("a key was asked for"),
    }
}

#[test]
fn command_error_to_message_uses_the_locale() {
    let c = i18n_catalogs();
    let e = CommandError::key_with(
        "patchBackend.errors.writeFileFailed",
        &[("detail", "denied".to_string())],
    );
    assert_eq!(e.to_message(Some("en"), &c), "Write failed: denied");
    assert_eq!(e.to_message(None, &c), "写入失败: denied");
    let raw = CommandError::from("as it is {detail}".to_string());
    assert_eq!(raw.to_message(Some("en"), &c), "as it is {detail}");
}

#[test]
fn command_error_details_join_the_values() {
    let e = CommandError::key_with("k", &[("a", "one".to_string()), ("b", "two".to_string())]);
    assert_eq!(e.details_for_match(), "one\ntwo");
    assert_eq!(CommandError::key("k").details_for_match(), "");
    assert_eq!(CommandError::Raw("raw text".to_string()).details_for_match(), "raw text");
}
