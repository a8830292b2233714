use anti_power::deploy::{
    backup_files, backup_legacy_sidebar_files, backup_manager_files, backup_modern_sidebar_files,
    chain, install_steps, map_embedded_error, restore_backup_files, restore_files,
    restore_legacy_sidebar_files, restore_manager_files, restore_modern_sidebar_files,
    update_config_steps, write_config_file, write_file_steps, write_kept_files,
    write_legacy_sidebar_patches, write_manager_config_file, write_manager_patches,
    write_modern_sidebar_patches, write_patches, EmbeddedError, PanelConfig, Plan,
};
use anti_power::embedded::get_all_files;
use anti_power::i18n::CommandError;
use anti_power::layout::{
    extensions_dir, facts_from, manifest_path, watched_paths, workbench_dir, PatchFacts,
    SiteFacts, Subsystem,
};
use anti_power::paths::FilePath;
use anti_power::plan::{Action, Failure, Step};
use anti_power::version::SidebarPatchVariant;

fn deploy_root() -> FilePath {
    FilePath::new(
        "/".to_string(),
        vec!["ag".to_string(), "resources".to_string(), "app".to_string()],
    )
}

const DEPLOY_EXT: &str = "/ag/resources/app/extensions/antigravity";
const DEPLOY_WB: &str = "/ag/resources/app/out/vs/code/electron-browser/workbench";

fn deploy_site(entry: bool, backup: bool, panel: bool, config: bool) -> SiteFacts {
    SiteFacts { entry, backup, panel, config }
}

fn deploy_facts(legacy: SiteFacts, modern: SiteFacts, manager: SiteFacts) -> PatchFacts {
    PatchFacts { extensions_dir: true, workbench_dir: true, manifest: true, legacy, modern, manager }
}

fn deploy_bundle() -> Vec<(String, String)> {
    [
        ("anti-power.sh", "#!/bin/bash zh"),
        ("anti-power.en.sh", "#!/bin/bash en"),
        ("cascade-panel.html", "<legacy entry>"),
        ("cascade-panel/main.js", "legacy js"),
        ("cascade-panel/css/a.css", "legacy css"),
        ("workbench.html", "<modern entry>"),
        ("sidebar-panel/main.js", "modern js"),
        ("workbench-jetski-agent.html", "<manager entry>"),
        ("manager-panel/main.js", "manager js"),
        ("cascade-panel.html.txt", "not kept"),
        ("cascade-panelx/y.js", "not kept either"),
    ]
    .iter()
    .map(|(p, c)| (p.to_string(), c.to_string()))
    .collect()
}

fn deploy_show(steps: &[Step]) -> Vec<String> {
    steps
        .iter()
        .map(|s| {
            let what = match &s.action {
                Action::CopyFile { from, to } => {
                    format!("copy {} -> {}", from.render("/"), to.render("/"))
                }
                Action::RemoveFile { path } => format!("rm {}", path.render("/")),
                Action::RemoveTree { path } => format!("rmtree {}", path.render("/")),
                Action::MakeDirs { path } => format!("mkdirs {}", path.render("/")),
                Action::WriteText { path, content } => {
                    format!("write {} = {}", path.render("/"), content)
                }
                Action::CheckFile { path } => format!("check {}", path.render("/")),
                Action::MarkExecutable { path } => format!("chmod {}", path.render("/")),
            };
            let key = match &s.failure {
                Failure::Ignored => "ignored".to_string(),
                Failure::Key(k) => k.replace("patchBackend.errors.", ""),
                Failure::KeyWithPath(k) => format!("{}+path", k.replace("patchBackend.errors.", "")),
            };
            format!("{} [{}]", what, key)
        })
        .collect()
}

#[test]
fn layout_paths_lie_below_the_root() {
    let root = deploy_root();
    assert_eq!(extensions_dir(&root).render("/"), DEPLOY_EXT);
    assert_eq!(workbench_dir(&root).render("/"), DEPLOY_WB);
    assert_eq!(manifest_path(&root).render("/"), "/ag/resources/app/product.json");
    assert_eq!(Subsystem::LegacySidebar.entry_file(), "cascade-panel.html");
    assert_eq!(Subsystem::ModernSidebar.backup_file(), "workbench.html.bak");
    assert_eq!(Subsystem::Manager.panel_dir(), "manager-panel");
    assert_eq!(
        Subsystem::Manager.config_path(&root).render("/"),
        format!("{}/manager-panel/config.json", DEPLOY_WB)
    );
    let watched: Vec<String> = watched_paths(&root).iter().map(|p| p.render("/")).collect();
    assert_eq!(
        watched,
        vec![
            DEPLOY_EXT.to_string(),
            DEPLOY_WB.to_string(),
            "/ag/resources/app/product.json".to_string(),
            format!("{}/cascade-panel.html", DEPLOY_EXT),
            format!("{}/cascade-panel.html.bak", DEPLOY_EXT),
            format!("{}/cascade-panel", DEPLOY_EXT),
            format!("{}/cascade-panel/config.json", DEPLOY_EXT),
            format!("{}/workbench.html", DEPLOY_WB),
            format!("{}/workbench.html.bak", DEPLOY_WB),
            format!("{}/sidebar-panel", DEPLOY_WB),
            format!("{}/sidebar-panel/config.json", DEPLOY_WB),
            format!("{}/workbench-jetski-agent.html", DEPLOY_WB),
            format!("{}/workbench-jetski-agent.html.bak", DEPLOY_WB),
            format!("{}/manager-panel", DEPLOY_WB),
            format!("{}/manager-panel/config.json", DEPLOY_WB),
        ]
    );
}

#[test]
fn facts_are_read_in_the_order_of_the_watched_paths() {
    let mut flags = vec![false; 15];
    flags[0] = true;
    flags[2] = true;
    flags[3] = true;
    flags[10] = true;
    flags[14] = true;
    let facts = facts_from(&flags);
    assert_eq!(
        facts,
        PatchFacts {
            extensions_dir: true,
            workbench_dir: false,
            manifest: true,
            legacy: deploy_site(true, false, false, false),
            modern: deploy_site(false, false, false, true),
            manager: deploy_site(false, false, false, true),
        }
    );
    let short = facts_from(&vec![true, true]);
    assert!(short.extensions_dir && short.workbench_dir && !short.manifest);
    assert_eq!(short.manager, deploy_site(false, false, false, false));
}

#[test]
fn backup_happens_once_per_entry_file() {
    let root = deploy_root();
    let fresh = deploy_site(true, false, false, false);
    assert_eq!(
        deploy_show(&backup_files(Subsystem::LegacySidebar, &root, &fresh)),
        vec![format!(
            "copy {}/cascade-panel.html -> {}/cascade-panel.html.bak [backupCascadeFailed]",
            DEPLOY_EXT, DEPLOY_EXT
        )]
    );
    assert!(backup_files(Subsystem::LegacySidebar, &root, &deploy_site(true, true, false, false)).is_empty());
    assert!(backup_files(Subsystem::LegacySidebar, &root, &deploy_site(false, false, false, false)).is_empty());
    assert!(backup_files(Subsystem::LegacySidebar, &root, &deploy_site(false, true, false, false)).is_empty());
    let facts = deploy_facts(fresh, fresh, fresh);
    assert_eq!(deploy_show(&backup_legacy_sidebar_files(&root, &facts)).len(), 1);
    assert_eq!(
        deploy_show(&backup_modern_sidebar_files(&root, &facts)),
        vec![format!(
            "copy {}/workbench.html -> {}/workbench.html.bak [backupCascadeFailed]",
            DEPLOY_WB, DEPLOY_WB
        )]
    );
    assert_eq!(
        deploy_show(&backup_manager_files(&root, &facts)),
        vec![format!(
            "copy {}/workbench-jetski-agent.html -> {}/workbench-jetski-agent.html.bak [backupManagerEntryFailed]",
            DEPLOY_WB, DEPLOY_WB
        )]
    );
}

#[test]
fn restore_copies_back_and_removes() {
    let root = deploy_root();
    assert_eq!(
        deploy_show(&restore_files(Subsystem::Manager, &root, &deploy_site(true, true, true, true))),
        vec![
            format!(
                "copy {}/workbench-jetski-agent.html.bak -> {}/workbench-jetski-agent.html [restoreManagerEntryFailed]",
                DEPLOY_WB, DEPLOY_WB
            ),
            format!("rm {}/workbench-jetski-agent.html.bak [ignored]", DEPLOY_WB),
            format!("rmtree {}/manager-panel [removeManagerDirFailed]", DEPLOY_WB),
        ]
    );
    assert_eq!(
        deploy_show(&restore_files(Subsystem::LegacySidebar, &root, &deploy_site(true, false, true, false))),
        vec![format!("rmtree {}/cascade-panel [removeCascadeDirFailed]", DEPLOY_EXT)]
    );
    assert!(restore_files(Subsystem::ModernSidebar, &root, &deploy_site(true, false, false, false)).is_empty());
    let all = deploy_site(true, true, true, true);
    let facts = deploy_facts(all, all, all);
    assert_eq!(restore_legacy_sidebar_files(&root, &facts).len(), 3);
    assert_eq!(restore_modern_sidebar_files(&root, &facts).len(), 3);
    assert_eq!(restore_manager_files(&root, &facts).len(), 3);
    let shown = deploy_show(&restore_backup_files(&root, &facts));
    assert_eq!(shown.len(), 9);
    assert!(shown[0].starts_with(&format!("copy {}/cascade-panel.html.bak", DEPLOY_EXT)));
    assert!(shown[3].starts_with(&format!("copy {}/workbench.html.bak", DEPLOY_WB)));
    assert!(shown[6].starts_with(&format!("copy {}/workbench-jetski-agent.html.bak", DEPLOY_WB)));
}

#[test]
fn kept_files_are_the_entry_and_the_panel() {
    assert!(Subsystem::LegacySidebar.keeps_file("cascade-panel.html"));
    assert!(Subsystem::LegacySidebar.keeps_file("cascade-panel/x.js"));
    assert!(Subsystem::LegacySidebar.keeps_file("cascade-panel/"));
    assert!(!Subsystem::LegacySidebar.keeps_file("cascade-panel"));
    assert!(!Subsystem::LegacySidebar.keeps_file("cascade-panel.html.bak"));
    assert!(!Subsystem::LegacySidebar.keeps_file("workbench.html"));
    assert!(!Subsystem::LegacySidebar.keeps_file("x/cascade-panel/y"));
    assert!(Subsystem::ModernSidebar.keeps_file("workbench.html"));
    assert!(Subsystem::ModernSidebar.keeps_file("sidebar-panel/a/b"));
    assert!(!Subsystem::ModernSidebar.keeps_file("workbench-jetski-agent.html"));
    assert!(Subsystem::Manager.keeps_file("workbench-jetski-agent.html"));
    assert!(Subsystem::Manager.keeps_file("manager-panel/a"));
    assert!(!Subsystem::Manager.keeps_file("sidebar-panel/a"));
}

#[test]
fn file_steps_make_the_directory_first() {
    let root = deploy_root();
    let base = extensions_dir(&root);
    assert_eq!(
        deploy_show(&write_file_steps(&base, "cascade-panel/css/a.css", "body{}")),
        vec![
            format!("mkdirs {}/cascade-panel/css [createDirFailed]", DEPLOY_EXT),
            format!("write {}/cascade-panel/css/a.css = body{{}} [writeFileFailed+path]", DEPLOY_EXT),
        ]
    );
    let shown = deploy_show(&write_kept_files(Subsystem::LegacySidebar, &root, &deploy_bundle()));
    assert_eq!(
        shown,
        vec![
            format!("mkdirs {} [createDirFailed]", DEPLOY_EXT),
            format!("write {}/cascade-panel.html = <legacy entry> [writeFileFailed+path]", DEPLOY_EXT),
            format!("mkdirs {}/cascade-panel [createDirFailed]", DEPLOY_EXT),
            format!("write {}/cascade-panel/main.js = legacy js [writeFileFailed+path]", DEPLOY_EXT),
            format!("mkdirs {}/cascade-panel/css [createDirFailed]", DEPLOY_EXT),
            format!("write {}/cascade-panel/css/a.css = legacy css [writeFileFailed+path]", DEPLOY_EXT),
        ]
    );
}

#[test]
fn deploy_clears_the_panel_and_writes_the_config_last() {
    let root = deploy_root();
    let bundle = Ok(deploy_bundle());
    let plan = write_patches(
        Subsystem::ModernSidebar,
        &root,
        &deploy_site(true, true, true, true),
        &bundle,
        "{\"a\":1}",
    );
    assert!(plan.verdict.is_none());
    assert_eq!(
        deploy_show(&plan.steps),
        vec![
            format!("rmtree {}/sidebar-panel [removeOldCascadeDirFailed]", DEPLOY_WB),
            format!("mkdirs {}/sidebar-panel [createCascadeDirFailed]", DEPLOY_WB),
            format!("mkdirs {} [createDirFailed]", DEPLOY_WB),
            format!("write {}/workbench.html = <modern entry> [writeFileFailed+path]", DEPLOY_WB),
            format!("mkdirs {}/sidebar-panel [createDirFailed]", DEPLOY_WB),
            format!("write {}/sidebar-panel/main.js = modern js [writeFileFailed+path]", DEPLOY_WB),
            format!("write {}/sidebar-panel/config.json = {{\"a\":1}} [writeConfigFailed]", DEPLOY_WB),
        ]
    );
    let fresh = write_manager_patches(
        &root,
        &deploy_facts(
            deploy_site(true, false, false, false),
            deploy_site(true, false, false, false),
            deploy_site(true, false, false, false),
        ),
        &bundle,
        "{}",
    );
    let shown = deploy_show(&fresh.steps);
    assert_eq!(shown[0], format!("mkdirs {}/manager-panel [createManagerDirFailed]", DEPLOY_WB));
    assert_eq!(
        shown.last().unwrap(),
        &format!("write {}/manager-panel/config.json = {{}} [writeManagerConfigFailed]", DEPLOY_WB)
    );
    let all = deploy_site(true, true, true, true);
    let facts = deploy_facts(all, all, all);
    assert_eq!(
        deploy_show(&write_legacy_sidebar_patches(&root, &facts, &bundle, "{}").steps)[0],
        format!("rmtree {}/cascade-panel [removeOldCascadeDirFailed]", DEPLOY_EXT)
    );
    assert_eq!(
        deploy_show(&write_modern_sidebar_patches(&root, &facts, &bundle, "{}").steps)[0],
        format!("rmtree {}/sidebar-panel [removeOldCascadeDirFailed]", DEPLOY_WB)
    );
    assert_eq!(
        deploy_show(&write_manager_patches(&root, &facts, &bundle, "{}").steps)[0],
        format!("rmtree {}/manager-panel [removeOldManagerDirFailed]", DEPLOY_WB)
    );
}

#[test]
fn deploy_without_a_bundle_ends_after_the_directory() {
    let root = deploy_root();
    let plan = write_patches(
        Subsystem::LegacySidebar,
        &root,
        &deploy_site(true, false, true, false),
        &Err(EmbeddedError::PatchesDirNotFound),
        "{}",
    );
    assert_eq!(
        deploy_show(&plan.steps),
        vec![
            format!("rmtree {}/cascade-panel [removeOldCascadeDirFailed]", DEPLOY_EXT),
            format!("mkdirs {}/cascade-panel [createCascadeDirFailed]", DEPLOY_EXT),
        ]
    );
    match plan.verdict {
        Some(CommandError::Localized { key, vars }) => {
            assert_eq!(key, "patchBackend.errors.patchesDirNotFound");
            assert!(vars.is_empty());
        }
        other => panic!("{:?}", other),
    }
}

#[test]
fn embedded_errors_are_mapped() {
    let e = map_embedded_error(&EmbeddedError::ReadPatchFileFailed {
        path: "/p/a \"b\".js".to_string(),
        detail: "gone".to_string(),
    });
    match e {
        CommandError::Localized { key, vars } => {
            assert_eq!(key, "patchBackend.errors.readPatchFileFailed");
            assert_eq!(
                vars,
                vec![("detail".to_string(), format!("{:?}: {}", "/p/a \"b\".js", "gone"))]
            );
        }
        other => panic!("{:?}", other),
    }
}

#[test]
fn config_steps_name_their_files() {
    let root = deploy_root();
    assert_eq!(
        deploy_show(&[write_config_file(SidebarPatchVariant::Legacy, &root, "L")]),
        vec![format!("write {}/cascade-panel/config.json = L [writeConfigFailed]", DEPLOY_EXT)]
    );
    assert_eq!(
        deploy_show(&[write_config_file(SidebarPatchVariant::Modern, &root, "M")]),
        vec![format!("write {}/sidebar-panel/config.json = M [writeConfigFailed]", DEPLOY_WB)]
    );
    assert_eq!(
        deploy_show(&[write_manager_config_file(&root, "G")]),
        vec![format!("write {}/manager-panel/config.json = G [writeManagerConfigFailed]", DEPLOY_WB)]
    );
}

#[test]
fn plans_stop_at_the_first_error() {
    let a = Plan::of(vec![write_manager_config_file(&deploy_root(), "1")]);
    let b = Plan::failing(CommandError::key("k"));
    let c = Plan::of(vec![write_manager_config_file(&deploy_root(), "2")]);
    let joined = a.and(b).and(c);
    assert_eq!(joined.steps.len(), 1);
    assert!(matches!(joined.verdict, Some(CommandError::Localized { .. })));
    let both = chain(
        vec![write_manager_config_file(&deploy_root(), "1")],
        vec![write_manager_config_file(&deploy_root(), "2")],
    );
    assert_eq!(both.len(), 2);
}

#[test]
fn install_deploys_the_active_layout_and_restores_the_other() {
    let root = deploy_root();
    let bundle = Ok(deploy_bundle());
    let facts = deploy_facts(
        deploy_site(true, true, true, true),
        deploy_site(true, false, false, false),
        deploy_site(true, false, false, false),
    );
    let on = PanelConfig { enabled: true, json: "S".to_string() };
    let off = PanelConfig { enabled: false, json: "G".to_string() };
    let plan = install_steps(&root, &facts, SidebarPatchVariant::Modern, &on, &off, &bundle);
    assert!(plan.verdict.is_none());
    assert_eq!(
        deploy_show(&plan.steps),
        vec![
            format!("copy {}/workbench.html -> {}/workbench.html.bak [backupCascadeFailed]", DEPLOY_WB, DEPLOY_WB),
            format!("mkdirs {}/sidebar-panel [createCascadeDirFailed]", DEPLOY_WB),
            format!("mkdirs {} [createDirFailed]", DEPLOY_WB),
            format!("write {}/workbench.html = <modern entry> [writeFileFailed+path]", DEPLOY_WB),
            format!("mkdirs {}/sidebar-panel [createDirFailed]", DEPLOY_WB),
            format!("write {}/sidebar-panel/main.js = modern js [writeFileFailed+path]", DEPLOY_WB),
            format!("write {}/sidebar-panel/config.json = S [writeConfigFailed]", DEPLOY_WB),
            format!("copy {}/cascade-panel.html.bak -> {}/cascade-panel.html [restoreCascadeFailed]", DEPLOY_EXT, DEPLOY_EXT),
            format!("rm {}/cascade-panel.html.bak [ignored]", DEPLOY_EXT),
            format!("rmtree {}/cascade-panel [removeCascadeDirFailed]", DEPLOY_EXT),
        ]
    );
    let legacy = install_steps(&root, &facts, SidebarPatchVariant::Legacy, &on, &off, &bundle);
    let shown = deploy_show(&legacy.steps);
    assert_eq!(shown[0], format!("rmtree {}/cascade-panel [removeOldCascadeDirFailed]", DEPLOY_EXT));
    assert!(shown.iter().all(|s| !s.contains("sidebar-panel")));
    assert!(shown.iter().all(|s| !s.starts_with("write") || s.contains(DEPLOY_EXT)));
}

#[test]
fn install_with_everything_off_restores_everything() {
    let root = deploy_root();
    let all = deploy_site(true, true, true, true);
    let facts = deploy_facts(all, all, all);
    let off = PanelConfig { enabled: false, json: String::new() };
    let plan = install_steps(
        &root,
        &facts,
        SidebarPatchVariant::Modern,
        &off,
        &off,
        &Err(EmbeddedError::PatchesDirNotFound),
    );
    assert!(plan.verdict.is_none());
    assert_eq!(deploy_show(&plan.steps), deploy_show(&restore_backup_files(&root, &facts)));
}

#[test]
fn install_without_a_bundle_stops_in_the_first_deploy() {
    let root = deploy_root();
    let fresh = deploy_site(true, false, false, false);
    let facts = deploy_facts(fresh, fresh, fresh);
    let on = PanelConfig { enabled: true, json: "{}".to_string() };
    let plan = install_steps(
        &root,
        &facts,
        SidebarPatchVariant::Legacy,
        &on,
        &on,
        &Err(EmbeddedError::PatchesDirNotFound),
    );
    assert_eq!(
        deploy_show(&plan.steps),
        vec![
            format!("copy {}/cascade-panel.html -> {}/cascade-panel.html.bak [backupCascadeFailed]", DEPLOY_EXT, DEPLOY_EXT),
            format!("mkdirs {}/cascade-panel [createCascadeDirFailed]", DEPLOY_EXT),
        ]
    );
    assert!(plan.verdict.is_some());
}

#[test]
fn update_config_rewrites_what_exists() {
    let root = deploy_root();
    let facts = deploy_facts(
        deploy_site(true, true, true, true),
        deploy_site(true, false, false, false),
        deploy_site(true, true, true, true),
    );
    assert_eq!(
        deploy_show(&update_config_steps(&root, &facts, "S", "G")),
        vec![
            format!("write {}/cascade-panel/config.json = S [writeConfigFailed]", DEPLOY_EXT),
            format!("write {}/manager-panel/config.json = G [writeManagerConfigFailed]", DEPLOY_WB),
        ]
    );
    let none = deploy_site(true, false, true, false);
    assert!(update_config_steps(&root, &deploy_facts(none, none, none), "S", "G").is_empty());
}

#[test]
fn bundle_copy_keeps_order_and_content() {
    let bundle = deploy_bundle();
    assert_eq!(get_all_files(&bundle), bundle);
    assert!(get_all_files(&Vec::new()).is_empty());
}
