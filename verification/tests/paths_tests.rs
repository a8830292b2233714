use anti_power::paths::{
    capital_resources, ends_with_components_ci, is_app_bundle, is_valid_antigravity_root,
    marker_path, normalize_antigravity_root, resources_app_root, resources_dir_name,
    root_candidates, root_seeds, separator, strip_tail_components, strip_tail_components_ci,
    FilePath, Platform, RootFacts,
};

fn paths_abs(names: &[&str]) -> FilePath {
    FilePath::new("/".to_string(), names.iter().map(|n| n.to_string()).collect())
}

fn paths_show(p: &FilePath) -> String {
    p.render("/")
}

fn paths_no() -> RootFacts {
    RootFacts { capital_resources: false, capital_marker: false, plain_marker: false }
}

fn paths_yes() -> RootFacts {
    RootFacts { capital_resources: false, capital_marker: false, plain_marker: true }
}

#[test]
fn file_path_joins_and_renders() {
    let p = paths_abs(&["opt", "Antigravity"]);
    assert_eq!(paths_show(&p), "/opt/Antigravity");
    assert_eq!(paths_show(&p.join("resources")), "/opt/Antigravity/resources");
    assert_eq!(paths_show(&paths_abs(&[])), "/");
    let rel = FilePath::new(String::new(), vec!["a".to_string(), "b".to_string()]);
    assert_eq!(rel.render("\\"), "a\\b");
    let win = FilePath::new("C:\\".to_string(), vec!["Program Files".to_string()]);
    assert_eq!(win.render(separator(Platform::Windows)), "C:\\Program Files");
    assert_eq!(separator(Platform::Linux), "/");
    assert_eq!(separator(Platform::MacOs), "/");
}

#[test]
fn file_path_parts_can_be_taken_and_added() {
    let p = paths_abs(&["a", "b"]);
    assert_eq!(paths_show(&p.copy()), "/a/b");
    assert_eq!(paths_show(&p.above()), "/a");
    assert_eq!(paths_show(&paths_abs(&[]).above()), "/");
    assert_eq!(paths_show(&p.prefix(1)), "/a");
    assert_eq!(paths_show(&p.prefix(0)), "/");
    assert_eq!(paths_show(&p.prefix(9)), "/a/b");
    assert_eq!(
        paths_show(&p.descend(&vec!["c".to_string(), "d".to_string()])),
        "/a/b/c/d"
    );
}

#[test]
fn resources_root_depends_on_the_platform() {
    let root = paths_abs(&["opt", "Antigravity"]);
    assert_eq!(resources_dir_name(Platform::MacOs), "Resources");
    assert_eq!(resources_dir_name(Platform::Linux), "resources");
    assert_eq!(resources_dir_name(Platform::Windows), "resources");
    assert_eq!(
        paths_show(&resources_app_root(&root, Platform::Linux, true)),
        "/opt/Antigravity/resources/app"
    );
    assert_eq!(
        paths_show(&resources_app_root(&root, Platform::MacOs, true)),
        "/opt/Antigravity/Resources/app"
    );
    assert_eq!(
        paths_show(&resources_app_root(&root, Platform::MacOs, false)),
        "/opt/Antigravity/resources/app"
    );
    assert_eq!(
        paths_show(&marker_path(&resources_app_root(&root, Platform::Linux, false))),
        "/opt/Antigravity/resources/app/extensions/antigravity/cascade-panel.html"
    );
}

#[test]
fn root_validity_follows_the_marker() {
    let plain = RootFacts { capital_resources: false, capital_marker: false, plain_marker: true };
    let capital = RootFacts { capital_resources: true, capital_marker: true, plain_marker: false };
    let hollow = RootFacts { capital_resources: true, capital_marker: false, plain_marker: true };
    assert!(is_valid_antigravity_root(Platform::Linux, &plain));
    assert!(!is_valid_antigravity_root(Platform::Linux, &capital));
    assert!(is_valid_antigravity_root(Platform::MacOs, &plain));
    assert!(is_valid_antigravity_root(Platform::MacOs, &capital));
    assert!(!is_valid_antigravity_root(Platform::MacOs, &hollow));
    assert!(is_valid_antigravity_root(Platform::Windows, &hollow));
}

#[test]
fn app_bundle_is_told_by_its_name() {
    assert!(is_app_bundle(&paths_abs(&["Applications", "Antigravity.app"])));
    assert!(is_app_bundle(&paths_abs(&["Applications", "Antigravity.APP"])));
    assert!(!is_app_bundle(&paths_abs(&["Applications", "Antigravity.app", "Contents"])));
    assert!(!is_app_bundle(&paths_abs(&[])));
    assert!(!is_app_bundle(&paths_abs(&["app"])));
}

#[test]
fn tail_components_are_compared_without_case() {
    let tail = vec!["resources".to_string(), "app".to_string()];
    assert!(ends_with_components_ci(&paths_abs(&["x", "Resources", "APP"]), &tail));
    assert!(ends_with_components_ci(&paths_abs(&["resources", "app"]), &tail));
    assert!(!ends_with_components_ci(&paths_abs(&["app"]), &tail));
    assert!(!ends_with_components_ci(&paths_abs(&["x", "resources", "apps"]), &tail));
    assert!(ends_with_components_ci(&paths_abs(&["x"]), &Vec::new()));
}

#[test]
fn tail_components_are_stripped() {
    let p = paths_abs(&["x", "Resources", "app"]);
    assert_eq!(paths_show(&strip_tail_components(&p, 2).unwrap()), "/x");
    assert_eq!(paths_show(&strip_tail_components(&p, 3).unwrap()), "/");
    assert!(strip_tail_components(&p, 4).is_none());
    let tail = vec!["resources".to_string(), "app".to_string()];
    assert_eq!(paths_show(&strip_tail_components_ci(&p, &tail).unwrap()), "/x");
    assert!(strip_tail_components_ci(&paths_abs(&["x", "app"]), &tail).is_none());
}

#[test]
fn seeds_cover_bundle_and_resource_tails() {
    let shown: Vec<String> =
        root_seeds(&paths_abs(&["Applications", "Antigravity.app"])).iter().map(paths_show).collect();
    assert_eq!(
        shown,
        vec!["/Applications/Antigravity.app", "/Applications/Antigravity.app/Contents"]
    );
    let shown: Vec<String> =
        root_seeds(&paths_abs(&["opt", "ag", "resources", "app"])).iter().map(paths_show).collect();
    assert_eq!(shown, vec!["/opt/ag/resources/app", "/opt/ag"]);
    let shown: Vec<String> =
        root_seeds(&paths_abs(&["opt", "ag", "Resources"])).iter().map(paths_show).collect();
    assert_eq!(shown, vec!["/opt/ag/Resources", "/opt/ag"]);
}

#[test]
fn candidates_are_the_ancestors_of_each_seed() {
    let shown: Vec<String> =
        root_candidates(&paths_abs(&["opt", "ag", "resources"])).iter().map(paths_show).collect();
    assert_eq!(
        shown,
        vec!["/opt/ag/resources", "/opt/ag", "/opt", "/", "/opt/ag", "/opt", "/"]
    );
    let rel = FilePath::new(String::new(), vec!["a".to_string()]);
    let shown: Vec<String> = root_candidates(&rel).iter().map(|p| p.render("/")).collect();
    assert_eq!(shown, vec!["a", ""]);
}

#[test]
fn normalize_takes_the_first_valid_candidate() {
    let input = paths_abs(&["opt", "ag", "resources", "app"]);
    let shown: Vec<String> = root_candidates(&input).iter().map(paths_show).collect();
    assert_eq!(
        shown,
        vec!["/opt/ag/resources/app", "/opt/ag/resources", "/opt/ag", "/opt", "/", "/opt/ag", "/opt", "/"]
    );
    let facts = vec![paths_no(), paths_no(), paths_yes(), paths_no(), paths_yes()];
    let root = normalize_antigravity_root(&input, Platform::Linux, &facts).unwrap();
    assert_eq!(paths_show(&root), "/opt/ag");
    let facts = vec![paths_no(), paths_no(), paths_no(), paths_no(), paths_yes()];
    let root = normalize_antigravity_root(&input, Platform::Linux, &facts).unwrap();
    assert_eq!(paths_show(&root), "/");
}

#[test]
fn normalize_finds_nothing_without_a_marker() {
    let input = paths_abs(&["opt", "ag"]);
    assert!(normalize_antigravity_root(&input, Platform::Linux, &Vec::new()).is_none());
    let facts = vec![paths_no(); 3];
    assert!(normalize_antigravity_root(&input, Platform::Linux, &facts).is_none());
    let capital_only =
        RootFacts { capital_resources: true, capital_marker: true, plain_marker: false };
    assert!(normalize_antigravity_root(&input, Platform::Linux, &vec![capital_only]).is_none());
    assert!(normalize_antigravity_root(&input, Platform::MacOs, &vec![capital_only]).is_some());
}

#[test]
fn capital_resources_lies_below_the_root() {
    assert_eq!(paths_show(&capital_resources(&paths_abs(&["a"]))), "/a/Resources");
}
