use anti_power::version::{
    detect_antigravity_version, detect_sidebar_patch_variant, detect_sidebar_variant,
    parse_version_component, parse_version_triplet, read_ide_version, IdeVersion,
    SidebarPatchVariant,
};

#[test]
fn version_component_takes_leading_digits() {
    assert_eq!(parse_version_component("18"), Some(18));
    assert_eq!(parse_version_component("3-insider"), Some(3));
    assert_eq!(parse_version_component("x3"), None);
    assert_eq!(parse_version_component(""), None);
}

#[test]
fn version_triplet_fills_missing_parts_with_zero() {
    assert_eq!(parse_version_triplet("1.18.3"), Some((1, 18, 3)));
    assert_eq!(parse_version_triplet("1.18"), Some((1, 18, 0)));
    assert_eq!(parse_version_triplet("2"), Some((2, 0, 0)));
    assert_eq!(parse_version_triplet("  1.19.0\n"), Some((1, 19, 0)));
    assert_eq!(parse_version_triplet("1.18.3.7"), Some((1, 18, 3)));
    assert_eq!(parse_version_triplet("1.18.3-beta.2"), Some((1, 18, 3)));
}

#[test]
fn version_triplet_fails_on_a_part_without_digits() {
    assert_eq!(parse_version_triplet(""), None);
    assert_eq!(parse_version_triplet("v1.18.3"), None);
    assert_eq!(parse_version_triplet("1..3"), None);
    assert_eq!(parse_version_triplet("1.x.3"), None);
    assert_eq!(parse_version_triplet("1.18."), None);
    assert_eq!(parse_version_triplet("1.99999999999.0"), None);
}

#[test]
fn ide_version_parses_and_compares() {
    let v = IdeVersion::parse("1.18.3").unwrap();
    assert_eq!(v, IdeVersion { major: 1, minor: 18, patch: 3 });
    let threshold = IdeVersion::modern_sidebar_threshold();
    assert_eq!(threshold, IdeVersion { major: 1, minor: 18, patch: 3 });
    assert!(v.at_least(&threshold));
    assert!(IdeVersion::parse("1.19.0").unwrap().at_least(&threshold));
    assert!(IdeVersion::parse("2.0.0").unwrap().at_least(&threshold));
    assert!(!IdeVersion::parse("1.18.2").unwrap().at_least(&threshold));
    assert!(!IdeVersion::parse("1.17.9").unwrap().at_least(&threshold));
    assert!(!IdeVersion::parse("0.99.99").unwrap().at_least(&threshold));
    assert!(IdeVersion::parse("nope").is_none());
}

#[test]
fn sidebar_variant_follows_the_threshold() {
    assert_eq!(detect_sidebar_variant(Some("1.18.3")), "modern");
    assert_eq!(detect_sidebar_variant(Some("1.18.4")), "modern");
    assert_eq!(detect_sidebar_variant(Some("1.18.2")), "legacy");
    assert_eq!(detect_sidebar_variant(Some("garbage")), "legacy");
    assert_eq!(detect_sidebar_variant(None), "legacy");
}

#[test]
fn ide_version_is_read_from_the_manifest() {
    assert_eq!(read_ide_version(r#"{"ideVersion": "1.18.3"}"#), Some("1.18.3".to_string()));
    assert_eq!(read_ide_version(r#"{"ideVersion": 3}"#), None);
    assert_eq!(read_ide_version(r#"{"version": "1.18.3"}"#), None);
    assert_eq!(read_ide_version("not json"), None);
    assert_eq!(read_ide_version(r#"["ideVersion"]"#), None);
}

#[test]
fn patch_variant_falls_back_to_legacy() {
    assert_eq!(
        detect_sidebar_patch_variant(Some(r#"{"ideVersion": "1.18.3"}"#)),
        SidebarPatchVariant::Modern
    );
    assert_eq!(
        detect_sidebar_patch_variant(Some(r#"{"ideVersion": "1.18.2"}"#)),
        SidebarPatchVariant::Legacy
    );
    assert_eq!(detect_sidebar_patch_variant(Some("{")), SidebarPatchVariant::Legacy);
    assert_eq!(detect_sidebar_patch_variant(Some("{}")), SidebarPatchVariant::Legacy);
    assert_eq!(detect_sidebar_patch_variant(None), SidebarPatchVariant::Legacy);
}

#[test]
fn version_info_names_the_variant() {
    let info = detect_antigravity_version(Some(r#"{"ideVersion": "1.20.1"}"#));
    assert_eq!(info.ide_version, Some("1.20.1".to_string()));
    assert_eq!(info.sidebar_variant, "modern");
    let info = detect_antigravity_version(None);
    assert_eq!(info.ide_version, None);
    assert_eq!(info.sidebar_variant, "legacy");
    let info = detect_antigravity_version(Some(r#"{"ideVersion": "old"}"#));
    assert_eq!(info.ide_version, Some("old".to_string()));
    assert_eq!(info.sidebar_variant, "legacy");
}
