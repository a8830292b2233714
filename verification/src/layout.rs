//! Where the patches live below the resource root.

use crate::paths::{FilePath, PathView};
use crate::plan::World;
use vstd::prelude::*;

verus! {

/// One group of patched files that is installed and restored as a whole.
#[derive(Debug, Clone, Copy, PartialEq, Eq, Structural)]
pub enum Subsystem {
    /// The sidebar of versions below the threshold.
    LegacySidebar,
    /// The sidebar from the threshold on.
    ModernSidebar,
    /// The manager window.
    Manager,
}

/// What exists of one subsystem.
#[derive(Debug, Clone, Copy, PartialEq, Eq, Structural)]
pub struct SiteFacts {
    /// The entry file.
    pub entry: bool,
    /// The backup beside the entry file.
    pub backup: bool,
    /// The directory of patch files.
    pub panel: bool,
    /// The configuration in that directory.
    pub config: bool,
}

/// What exists below a resource root.
#[derive(Debug, Clone, Copy, PartialEq, Eq, Structural)]
pub struct PatchFacts {
    pub extensions_dir: bool,
    pub workbench_dir: bool,
    pub manifest: bool,
    pub legacy: SiteFacts,
    pub modern: SiteFacts,
    pub manager: SiteFacts,
}

/// The extension's directory below a resource root.
pub open spec fn extensions_dir_of(root: PathView) -> PathView {
    root.child("extensions"@).child("antigravity"@)
}

/// The workbench directory below a resource root.
pub open spec fn workbench_dir_of(root: PathView) -> PathView {
    root.child("out"@).child("vs"@).child("code"@).child("electron-browser"@).child("workbench"@)
}

/// The manifest below a resource root.
pub open spec fn manifest_of(root: PathView) -> PathView {
    root.child("product.json"@)
}

impl Subsystem {
    /// The name of the entry file.
    pub open spec fn entry_name(self) -> Seq<char> {
        match self {
            Subsystem::LegacySidebar => "cascade-panel.html"@,
            Subsystem::ModernSidebar => "workbench.html"@,
            Subsystem::Manager => "workbench-jetski-agent.html"@,
        }
    }

    /// The name of the backup of the entry file.
    pub open spec fn backup_name(self) -> Seq<char> {
        match self {
            Subsystem::LegacySidebar => "cascade-panel.html.bak"@,
            Subsystem::ModernSidebar => "workbench.html.bak"@,
            Subsystem::Manager => "workbench-jetski-agent.html.bak"@,
        }
    }

    /// The name of the directory of patch files.
    pub open spec fn panel_name(self) -> Seq<char> {
        match self {
            Subsystem::LegacySidebar => "cascade-panel"@,
            Subsystem::ModernSidebar => "sidebar-panel"@,
            Subsystem::Manager => "manager-panel"@,
        }
    }

    /// The directory that holds the entry file.
    pub open spec fn base_of(self, root: PathView) -> PathView {
        match self {
            Subsystem::LegacySidebar => extensions_dir_of(root),
            _ => workbench_dir_of(root),
        }
    }

    /// The entry file.
    pub open spec fn entry_of(self, root: PathView) -> PathView {
        self.base_of(root).child(self.entry_name())
    }

    /// The backup of the entry file.
    pub open spec fn backup_of(self, root: PathView) -> PathView {
        self.base_of(root).child(self.backup_name())
    }

    /// The directory of patch files.
    pub open spec fn panel_of(self, root: PathView) -> PathView {
        self.base_of(root).child(self.panel_name())
    }

    /// The configuration file.
    pub open spec fn config_of(self, root: PathView) -> PathView {
        self.panel_of(root).child("config.json"@)
    }

    /// What a world shows of this subsystem.
    pub open spec fn observed(self, w: World, root: PathView) -> SiteFacts {
        SiteFacts {
            entry: w.has(self.entry_of(root)),
            backup: w.has(self.backup_of(root)),
            panel: w.has(self.panel_of(root)),
            config: w.has(self.config_of(root)),
        }
    }

    /// The name of the entry file.
    pub fn entry_file(self) -> (r: &'static str)
        ensures
            r@ == self.entry_name(),
    {
        match self {
            Subsystem::LegacySidebar => "cascade-panel.html",
            Subsystem::ModernSidebar => "workbench.html",
            Subsystem::Manager => "workbench-jetski-agent.html",
        }
    }

    /// The name of the backup of the entry file.
    pub fn backup_file(self) -> (r: &'static str)
        ensures
            r@ == self.backup_name(),
    {
        match self {
            Subsystem::LegacySidebar => "cascade-panel.html.bak",
            Subsystem::ModernSidebar => "workbench.html.bak",
            Subsystem::Manager => "workbench-jetski-agent.html.bak",
        }
    }

    /// The name of the directory of patch files.
    pub fn panel_dir(self) -> (r: &'static str)
        ensures
            r@ == self.panel_name(),
    {
        match self {
            Subsystem::LegacySidebar => "cascade-panel",
            Subsystem::ModernSidebar => "sidebar-panel",
            Subsystem::Manager => "manager-panel",
        }
    }

    /// The directory that holds the entry file.
    pub fn base(self, root: &FilePath) -> (r: FilePath)
        ensures
            r@ == self.base_of(root@),
    {
        match self {
            Subsystem::LegacySidebar => extensions_dir(root),
            _ => workbench_dir(root),
        }
    }

    /// The configuration file.
    pub fn config_path(self, root: &FilePath) -> (r: FilePath)
        ensures
            r@ == self.config_of(root@),
    {
        self.base(root).join(self.panel_dir()).join("config.json")
    }
}

/// What a world shows below a resource root.
pub open spec fn observed(w: World, root: PathView) -> PatchFacts {
    PatchFacts {
        extensions_dir: w.has(extensions_dir_of(root)),
        workbench_dir: w.has(workbench_dir_of(root)),
        manifest: w.has(manifest_of(root)),
        legacy: Subsystem::LegacySidebar.observed(w, root),
        modern: Subsystem::ModernSidebar.observed(w, root),
        manager: Subsystem::Manager.observed(w, root),
    }
}

/// The paths whose existence the engine asks for, in the order of the
/// answers that `facts_from` reads.
pub open spec fn watched_of(root: PathView) -> Seq<PathView> {
    seq![
        extensions_dir_of(root),
        workbench_dir_of(root),
        manifest_of(root),
        Subsystem::LegacySidebar.entry_of(root),
        Subsystem::LegacySidebar.backup_of(root),
        Subsystem::LegacySidebar.panel_of(root),
        Subsystem::LegacySidebar.config_of(root),
        Subsystem::ModernSidebar.entry_of(root),
        Subsystem::ModernSidebar.backup_of(root),
        Subsystem::ModernSidebar.panel_of(root),
        Subsystem::ModernSidebar.config_of(root),
        Subsystem::Manager.entry_of(root),
        Subsystem::Manager.backup_of(root),
        Subsystem::Manager.panel_of(root),
        Subsystem::Manager.config_of(root),
    ]
}

/// The answer at a position; a missing answer counts as "does not exist".
pub open spec fn flag_at(flags: Seq<bool>, at: int) -> bool {
    0 <= at < flags.len() && flags[at]
}

/// The facts of a subsystem whose answers begin at `from`.
pub open spec fn site_from(flags: Seq<bool>, from: int) -> SiteFacts {
    SiteFacts {
        entry: flag_at(flags, from),
        backup: flag_at(flags, from + 1),
        panel: flag_at(flags, from + 2),
        config: flag_at(flags, from + 3),
    }
}

/// The facts that a list of answers states.
pub open spec fn facts_of(flags: Seq<bool>) -> PatchFacts {
    PatchFacts {
        extensions_dir: flag_at(flags, 0),
        workbench_dir: flag_at(flags, 1),
        manifest: flag_at(flags, 2),
        legacy: site_from(flags, 3),
        modern: site_from(flags, 7),
        manager: site_from(flags, 11),
    }
}

/// The extension's directory below a resource root.
pub fn extensions_dir(root: &FilePath) -> (r: FilePath)
    ensures
        r@ == extensions_dir_of(root@),
{
    root.join("extensions").join("antigravity")
}

/// The workbench directory below a resource root.
pub fn workbench_dir(root: &FilePath) -> (r: FilePath)
    ensures
        r@ == workbench_dir_of(root@),
{
    root.join("out").join("vs").join("code").join("electron-browser").join("workbench")
}

/// The manifest below a resource root.
pub fn manifest_path(root: &FilePath) -> (r: FilePath)
    ensures
        r@ == manifest_of(root@),
{
    root.join("product.json")
}

/// The answer at a position; a missing answer counts as "does not exist".
fn flag(flags: &Vec<bool>, at: usize) -> (r: bool)
    ensures
        r == flag_at(flags@, at as int),
{
    at < flags.len() && flags[at]
}

/// The facts of a subsystem whose answers begin at `from`.
fn site_facts(flags: &Vec<bool>, from: usize) -> (r: SiteFacts)
    requires
        from <= 100,
    ensures
        r == site_from(flags@, from as int),
{
    SiteFacts {
        entry: flag(flags, from),
        backup: flag(flags, from + 1),
        panel: flag(flags, from + 2),
        config: flag(flags, from + 3),
    }
}

/// The paths whose existence the engine asks for.
pub fn watched_paths(root: &FilePath) -> (r: Vec<FilePath>)
    ensures
        crate::paths::path_views(r@) == watched_of(root@),
{
    let ext = extensions_dir(root);
    let wb = workbench_dir(root);
    let mut out: Vec<FilePath> = Vec::new();
    out.push(ext.copy());
    out.push(wb.copy());
    out.push(manifest_path(root));
    out.push(ext.join(Subsystem::LegacySidebar.entry_file()));
    out.push(ext.join(Subsystem::LegacySidebar.backup_file()));
    out.push(ext.join(Subsystem::LegacySidebar.panel_dir()));
    out.push(Subsystem::LegacySidebar.config_path(root));
    out.push(wb.join(Subsystem::ModernSidebar.entry_file()));
    out.push(wb.join(Subsystem::ModernSidebar.backup_file()));
    out.push(wb.join(Subsystem::ModernSidebar.panel_dir()));
    out.push(Subsystem::ModernSidebar.config_path(root));
    out.push(wb.join(Subsystem::Manager.entry_file()));
    out.push(wb.join(Subsystem::Manager.backup_file()));
    out.push(wb.join(Subsystem::Manager.panel_dir()));
    out.push(Subsystem::Manager.config_path(root));
    assert(crate::paths::path_views(out@) =~= watched_of(root@));
    out
}

/// Reads the answers to `watched_paths`.
pub fn facts_from(flags: &Vec<bool>) -> (r: PatchFacts)
    ensures
        r == facts_of(flags@),
{
    PatchFacts {
        extensions_dir: flag(flags, 0),
        workbench_dir: flag(flags, 1),
        manifest: flag(flags, 2),
        legacy: site_facts(flags, 3),
        modern: site_facts(flags, 7),
        manager: site_facts(flags, 11),
    }
}

/// The answers of a world to `watched_paths` state what the world shows.
pub proof fn lemma_watched_facts(w: World, root: PathView)
    ensures
        facts_of(watched_of(root).map_values(|p: PathView| w.has(p))) == observed(w, root),
{
}

} // verus!
