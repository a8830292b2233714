use anti_power::i18n::CommandError;
use anti_power::manifest::clean_checksums;

fn manifest_keys(text: &str) -> Vec<String> {
    let doc: serde_json::Value = serde_json::from_str(text).unwrap();
    match doc.get("checksums").and_then(|c| c.as_object()) {
        Some(map) => map.keys().cloned().collect(),
        None => Vec::new(),
    }
}

#[test]
fn clean_checksums_removes_the_patched_entries() {
    let before = r#"{
        "ideVersion": "1.18.3",
        "checksums": {
            "extensions/antigravity/cascade-panel.html": "aaa",
            "vs/code/electron-browser/workbench/workbench.html": "bbb",
            "vs/code/electron-browser/workbench/workbench-jetski-agent.html": "ccc",
            "vs/code/electron-browser/workbench/workbench.js": "ddd"
        }
    }"#;
    let after = clean_checksums(before).unwrap().expect("entries were there");
    assert_eq!(manifest_keys(&after), vec!["vs/code/electron-browser/workbench/workbench.js"]);
    let doc: serde_json::Value = serde_json::from_str(&after).unwrap();
    assert_eq!(doc.get("ideVersion").and_then(|v| v.as_str()), Some("1.18.3"));
    let mut expected: serde_json::Value = serde_json::from_str(before).unwrap();
    let map = expected.get_mut("checksums").unwrap().as_object_mut().unwrap();
    map.remove("extensions/antigravity/cascade-panel.html");
    map.remove("vs/code/electron-browser/workbench/workbench.html");
    map.remove("vs/code/electron-browser/workbench/workbench-jetski-agent.html");
    assert_eq!(after, serde_json::to_string_pretty(&expected).unwrap());
}

#[test]
fn clean_checksums_removes_a_single_entry() {
    let before = r#"{"checksums": {"vs/code/electron-browser/workbench/workbench.html": "b", "x": "y"}}"#;
    let after = clean_checksums(before).unwrap().expect("one entry was there");
    assert_eq!(manifest_keys(&after), vec!["x"]);
}

#[test]
fn clean_checksums_writes_nothing_when_nothing_is_there() {
    assert_eq!(clean_checksums(r#"{"checksums": {"x": "y"}}"#).unwrap(), None);
    assert_eq!(clean_checksums(r#"{"checksums": {}}"#).unwrap(), None);
    assert_eq!(clean_checksums(r#"{"ideVersion": "1.0.0"}"#).unwrap(), None);
    assert_eq!(clean_checksums(r#"{"checksums": ["extensions/antigravity/cascade-panel.html"]}"#).unwrap(), None);
    assert_eq!(clean_checksums(r#"[1, 2]"#).unwrap(), None);
    assert_eq!(
        clean_checksums(r#"{"extensions/antigravity/cascade-panel.html": "top level"}"#).unwrap(),
        None
    );
}

#[test]
fn clean_checksums_is_idempotent() {
    let before = r#"{"checksums": {"extensions/antigravity/cascade-panel.html": "a"}}"#;
    let after = clean_checksums(before).unwrap().unwrap();
    assert_eq!(clean_checksums(&after).unwrap(), None);
}

#[test]
fn clean_checksums_reports_bad_json() {
    match clean_checksums("{ not json") {
        Err(CommandError::Localized { key, vars }) => {
            assert_eq!(key, "patchBackend.errors.parseProductJsonFailed");
            assert_eq!(vars.len(), 1);
            assert_eq!(vars[0].0, "detail");
            let expected = serde_json::from_str::<serde_json::Value>("{ not json").unwrap_err();
            assert_eq!(vars[0].1, expected.to_string());
        }
        other => panic!("a parse error was expected, not {:?}", other),
    }
}

#[test]
fn clean_checksums_keeps_every_other_member_and_checksum() {
    let before = r#"{"ideVersion":"1.0.0","checksums":{"extensions/antigravity/cascade-panel.html":"a","vs/code/electron-browser/workbench/workbench.html":"b","vs/code/electron-browser/workbench/workbench-jetski-agent.html":"c","vs/workbench/x.js":"d"}}"#;
    let after = clean_checksums(before).unwrap().expect("entries were there");
    let got: serde_json::Value = serde_json::from_str(&after).unwrap();
    let expected: serde_json::Value =
        serde_json::from_str(r#"{"ideVersion":"1.0.0","checksums":{"vs/workbench/x.js":"d"}}"#)
            .unwrap();
    assert_eq!(got, expected);
}

#[test]
fn clean_checksums_leaves_a_manifest_without_a_table_alone() {
    for content in [
        r#"{"checksums": "extensions/antigravity/cascade-panel.html"}"#,
        r#"{"checksums": null}"#,
        r#"{"checksums": 3}"#,
        r#""checksums""#,
        r#"null"#,
    ] {
        assert_eq!(clean_checksums(content).unwrap(), None, "{}", content);
    }
}

#[test]
fn clean_checksums_with_only_patched_entries_leaves_an_empty_table() {
    let before = r#"{"checksums": {"extensions/antigravity/cascade-panel.html": "a"}, "n": [1, 2.5, null]}"#;
    let after = clean_checksums(before).unwrap().expect("an entry was there");
    let got: serde_json::Value = serde_json::from_str(&after).unwrap();
    let expected: serde_json::Value =
        serde_json::from_str(r#"{"checksums": {}, "n": [1, 2.5, null]}"#).unwrap();
    assert_eq!(got, expected);
}
