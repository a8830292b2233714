//! The plans: which steps install, restore and reconfigure the patches.
//!
//! Every function here is a rule from facts to steps. None touches the disk.

use crate::i18n::{borrowed_pairs, CommandError, ErrorView};
use crate::layout::{PatchFacts, SiteFacts, Subsystem};
use crate::paths::{FilePath, PathView};
use crate::plan::{step, step_ignored, step_views, step_with_path, Action, ActionView, FailureView,
    Step, StepView};
use crate::rewrite::{debug_quote, debug_quoted, rel_components, split_rel};
use crate::text::{occurs_at, owned, same_text, starts_with};
use crate::version::SidebarPatchVariant;
use vstd::prelude::*;
use vstd::string::*;

verus! {

/// Why the patch files could not be had.
#[derive(Debug)]
pub enum EmbeddedError {
    /// The directory of patch files was not found.
    PatchesDirNotFound,
    /// One patch file could not be read.
    ReadPatchFileFailed { path: String, detail: String },
}

/// The mathematical value of an `EmbeddedError`.
pub enum EmbeddedErrorView {
    PatchesDirNotFound,
    ReadPatchFileFailed { path: Seq<char>, detail: Seq<char> },
}

impl View for EmbeddedError {
    type V = EmbeddedErrorView;

    open spec fn view(&self) -> EmbeddedErrorView {
        match self {
            EmbeddedError::PatchesDirNotFound => EmbeddedErrorView::PatchesDirNotFound,
            EmbeddedError::ReadPatchFileFailed { path, detail } => {
                EmbeddedErrorView::ReadPatchFileFailed { path: path@, detail: detail@ }
            },
        }
    }
}

/// What one subsystem is asked to be: whether it is on, and the text of its
/// configuration file.
#[derive(Debug)]
pub struct PanelConfig {
    pub enabled: bool,
    pub json: String,
}

/// Steps, and the error to end with once they are done, if any.
#[derive(Debug)]
pub struct Plan {
    pub steps: Vec<Step>,
    pub verdict: Option<CommandError>,
}

/// The mathematical value of a `Plan`.
pub struct PlanView {
    pub steps: Seq<StepView>,
    pub verdict: Option<ErrorView>,
}

impl View for Plan {
    type V = PlanView;

    open spec fn view(&self) -> PlanView {
        PlanView {
            steps: step_views(self.steps@),
            verdict: match self.verdict {
                Some(e) => Some(e@),
                None => None,
            },
        }
    }
}

impl PlanView {
    /// The plan of these steps, ending well.
    pub open spec fn of(steps: Seq<StepView>) -> PlanView {
        PlanView { steps, verdict: None }
    }

    /// The plan that does nothing and ends with an error.
    pub open spec fn failing(e: ErrorView) -> PlanView {
        PlanView { steps: Seq::empty(), verdict: Some(e) }
    }

    /// This plan, and then `next` unless this one ends with an error.
    pub open spec fn and(self, next: PlanView) -> PlanView {
        if self.verdict is None {
            PlanView { steps: self.steps + next.steps, verdict: next.verdict }
        } else {
            self
        }
    }
}

/// The files of the patch bundle, each a relative path and a content.
pub open spec fn file_views(files: Seq<(String, String)>) -> Seq<(Seq<char>, Seq<char>)> {
    Seq::new(files.len(), |i: int| (files[i].0@, files[i].1@))
}

/// The view of a bundle that was loaded, or of why it was not.
pub open spec fn bundle_view(bundle: Result<Vec<(String, String)>, EmbeddedError>) -> Result<
    Seq<(Seq<char>, Seq<char>)>,
    EmbeddedErrorView,
> {
    match bundle {
        Ok(files) => Ok(file_views(files@)),
        Err(e) => Err(e@),
    }
}

/// The error that a missing bundle is reported as.
pub open spec fn mapped_error(e: EmbeddedErrorView) -> ErrorView {
    match e {
        EmbeddedErrorView::PatchesDirNotFound => ErrorView::Localized {
            key: "patchBackend.errors.patchesDirNotFound"@,
            vars: Seq::empty(),
        },
        EmbeddedErrorView::ReadPatchFileFailed { path, detail } => ErrorView::Localized {
            key: "patchBackend.errors.readPatchFileFailed"@,
            vars: seq![("detail"@, debug_quoted(path) + ": "@ + detail)],
        },
    }
}

impl Subsystem {
    /// The key of the error when the entry file cannot be backed up.
    pub open spec fn backup_key(self) -> Seq<char> {
        match self {
            Subsystem::Manager => "patchBackend.errors.backupManagerEntryFailed"@,
            _ => "patchBackend.errors.backupCascadeFailed"@,
        }
    }

    /// The key of the error when the entry file cannot be restored.
    pub open spec fn restore_key(self) -> Seq<char> {
        match self {
            Subsystem::Manager => "patchBackend.errors.restoreManagerEntryFailed"@,
            _ => "patchBackend.errors.restoreCascadeFailed"@,
        }
    }

    /// The key of the error when a restore cannot remove the patch files.
    pub open spec fn remove_key(self) -> Seq<char> {
        match self {
            Subsystem::Manager => "patchBackend.errors.removeManagerDirFailed"@,
            _ => "patchBackend.errors.removeCascadeDirFailed"@,
        }
    }

    /// The key of the error when a deploy cannot remove the old patch files.
    pub open spec fn remove_old_key(self) -> Seq<char> {
        match self {
            Subsystem::Manager => "patchBackend.errors.removeOldManagerDirFailed"@,
            _ => "patchBackend.errors.removeOldCascadeDirFailed"@,
        }
    }

    /// The key of the error when the directory of patch files cannot be made.
    pub open spec fn create_key(self) -> Seq<char> {
        match self {
            Subsystem::Manager => "patchBackend.errors.createManagerDirFailed"@,
            _ => "patchBackend.errors.createCascadeDirFailed"@,
        }
    }

    /// The key of the error when the configuration cannot be written.
    pub open spec fn config_key(self) -> Seq<char> {
        match self {
            Subsystem::Manager => "patchBackend.errors.writeManagerConfigFailed"@,
            _ => "patchBackend.errors.writeConfigFailed"@,
        }
    }

    /// Whether a file of the bundle belongs to this subsystem: it is the
    /// entry file, or lies below the directory of patch files.
    pub open spec fn keeps(self, rel: Seq<char>) -> bool {
        rel == self.entry_name() || occurs_at(rel, self.panel_name() + seq!['/'], 0)
    }

    /// The step that saves the entry file, where there is one and no backup
    /// yet.
    pub open spec fn backup_steps(self, root: PathView, facts: SiteFacts) -> Seq<StepView> {
        if facts.entry && !facts.backup {
            seq![
                StepView {
                    action: ActionView::CopyFile {
                        from: self.entry_of(root),
                        to: self.backup_of(root),
                    },
                    failure: FailureView::Key(self.backup_key()),
                },
            ]
        } else {
            Seq::empty()
        }
    }

    /// The steps that bring the entry file back from its backup and remove
    /// the patch files.
    pub open spec fn restore_steps(self, root: PathView, facts: SiteFacts) -> Seq<StepView> {
        let file = if facts.backup {
            seq![
                StepView {
                    action: ActionView::CopyFile {
                        from: self.backup_of(root),
                        to: self.entry_of(root),
                    },
                    failure: FailureView::Key(self.restore_key()),
                },
                StepView {
                    action: ActionView::RemoveFile { path: self.backup_of(root) },
                    failure: FailureView::Ignored,
                },
            ]
        } else {
            Seq::empty()
        };
        let dir = if facts.panel {
            seq![
                StepView {
                    action: ActionView::RemoveTree { path: self.panel_of(root) },
                    failure: FailureView::Key(self.remove_key()),
                },
            ]
        } else {
            Seq::empty()
        };
        file + dir
    }

    /// The steps that clear the directory of patch files and make it anew.
    pub open spec fn open_steps(self, root: PathView, facts: SiteFacts) -> Seq<StepView> {
        let clear = if facts.panel {
            seq![
                StepView {
                    action: ActionView::RemoveTree { path: self.panel_of(root) },
                    failure: FailureView::Key(self.remove_old_key()),
                },
            ]
        } else {
            Seq::empty()
        };
        clear + seq![
            StepView {
                action: ActionView::MakeDirs { path: self.panel_of(root) },
                failure: FailureView::Key(self.create_key()),
            },
        ]
    }

    /// Where a file of the bundle goes.
    pub open spec fn place_of(self, root: PathView, rel: Seq<char>) -> PathView {
        self.base_of(root).descend(rel_components(rel))
    }

    /// The steps that write one file of the bundle.
    pub open spec fn file_steps(self, root: PathView, rel: Seq<char>, content: Seq<char>) -> Seq<
        StepView,
    > {
        write_steps(self.place_of(root, rel), content)
    }

    /// The steps that write the files of the bundle that belong here.
    pub open spec fn files_steps(self, root: PathView, files: Seq<(Seq<char>, Seq<char>)>) -> Seq<
        StepView,
    >
        decreases files.len(),
    {
        if files.len() == 0 {
            Seq::empty()
        } else {
            let before = self.files_steps(root, files.drop_last());
            if self.keeps(files.last().0) {
                before + self.file_steps(root, files.last().0, files.last().1)
            } else {
                before
            }
        }
    }

    /// The step that writes the configuration.
    pub open spec fn config_step(self, root: PathView, json: Seq<char>) -> StepView {
        StepView {
            action: ActionView::WriteText { path: self.config_of(root), content: json },
            failure: FailureView::Key(self.config_key()),
        }
    }

    /// The plan that deploys this subsystem: clear the directory, make it
    /// anew, write the files that belong here, write the configuration.
    /// Without a bundle it ends after the directory is made.
    pub open spec fn deploy_plan(
        self,
        root: PathView,
        facts: SiteFacts,
        bundle: Result<Seq<(Seq<char>, Seq<char>)>, EmbeddedErrorView>,
        json: Seq<char>,
    ) -> PlanView {
        let opened = PlanView::of(self.open_steps(root, facts));
        match bundle {
            Ok(files) => opened.and(
                PlanView::of(self.files_steps(root, files).push(self.config_step(root, json))),
            ),
            Err(e) => opened.and(PlanView::failing(mapped_error(e))),
        }
    }
}

/// The steps that write a file: make its directory where it is missing, then
/// write the content.
pub open spec fn write_steps(place: PathView, content: Seq<char>) -> Seq<StepView> {
    seq![
        StepView {
            action: ActionView::MakeDirs { path: place.above() },
            failure: FailureView::Key("patchBackend.errors.createDirFailed"@),
        },
        StepView {
            action: ActionView::WriteText { path: place, content },
            failure: FailureView::KeyWithPath("patchBackend.errors.writeFileFailed"@),
        },
    ]
}

/// The facts of a subsystem among the facts of a root.
pub open spec fn site_of(facts: PatchFacts, sub: Subsystem) -> SiteFacts {
    match sub {
        Subsystem::LegacySidebar => facts.legacy,
        Subsystem::ModernSidebar => facts.modern,
        Subsystem::Manager => facts.manager,
    }
}

/// The sidebar subsystem that a layout uses.
pub open spec fn active_sidebar(variant: SidebarPatchVariant) -> Subsystem {
    match variant {
        SidebarPatchVariant::Legacy => Subsystem::LegacySidebar,
        SidebarPatchVariant::Modern => Subsystem::ModernSidebar,
    }
}

/// The sidebar subsystem that a layout does not use.
pub open spec fn idle_sidebar(variant: SidebarPatchVariant) -> Subsystem {
    match variant {
        SidebarPatchVariant::Legacy => Subsystem::ModernSidebar,
        SidebarPatchVariant::Modern => Subsystem::LegacySidebar,
    }
}

/// The sidebar's part of an install. On: back up and deploy the layout in
/// use, restore the other. Off: restore both.
pub open spec fn sidebar_plan(
    root: PathView,
    facts: PatchFacts,
    variant: SidebarPatchVariant,
    enabled: bool,
    json: Seq<char>,
    bundle: Result<Seq<(Seq<char>, Seq<char>)>, EmbeddedErrorView>,
) -> PlanView {
    if enabled {
        let active = active_sidebar(variant);
        let idle = idle_sidebar(variant);
        PlanView::of(active.backup_steps(root, site_of(facts, active))).and(
            active.deploy_plan(root, site_of(facts, active), bundle, json),
        ).and(PlanView::of(idle.restore_steps(root, site_of(facts, idle))))
    } else {
        PlanView::of(
            Subsystem::LegacySidebar.restore_steps(root, facts.legacy)
                + Subsystem::ModernSidebar.restore_steps(root, facts.modern),
        )
    }
}

/// The manager's part of an install. On: back up and deploy. Off: restore.
pub open spec fn manager_plan(
    root: PathView,
    facts: PatchFacts,
    enabled: bool,
    json: Seq<char>,
    bundle: Result<Seq<(Seq<char>, Seq<char>)>, EmbeddedErrorView>,
) -> PlanView {
    if enabled {
        PlanView::of(Subsystem::Manager.backup_steps(root, facts.manager)).and(
            Subsystem::Manager.deploy_plan(root, facts.manager, bundle, json),
        )
    } else {
        PlanView::of(Subsystem::Manager.restore_steps(root, facts.manager))
    }
}

/// The plan of an install: the sidebar's part, then the manager's.
pub open spec fn install_plan(
    root: PathView,
    facts: PatchFacts,
    variant: SidebarPatchVariant,
    sidebar_on: bool,
    sidebar_json: Seq<char>,
    manager_on: bool,
    manager_json: Seq<char>,
    bundle: Result<Seq<(Seq<char>, Seq<char>)>, EmbeddedErrorView>,
) -> PlanView {
    sidebar_plan(root, facts, variant, sidebar_on, sidebar_json, bundle).and(
        manager_plan(root, facts, manager_on, manager_json, bundle),
    )
}

/// The steps of an uninstall: restore both sidebar layouts and the manager,
/// whatever is in use.
pub open spec fn uninstall_steps(root: PathView, facts: PatchFacts) -> Seq<StepView> {
    Subsystem::LegacySidebar.restore_steps(root, facts.legacy)
        + Subsystem::ModernSidebar.restore_steps(root, facts.modern)
        + Subsystem::Manager.restore_steps(root, facts.manager)
}

/// The step that rewrites one configuration, where it exists.
pub open spec fn reconfigure_steps(sub: Subsystem, root: PathView, present: bool, json: Seq<char>)
    -> Seq<StepView> {
    if present {
        seq![sub.config_step(root, json)]
    } else {
        Seq::empty()
    }
}

/// The steps of a reconfiguration: rewrite each configuration that exists.
pub open spec fn update_steps(
    root: PathView,
    facts: PatchFacts,
    sidebar_json: Seq<char>,
    manager_json: Seq<char>,
) -> Seq<StepView> {
    reconfigure_steps(Subsystem::LegacySidebar, root, facts.legacy.config, sidebar_json)
        + reconfigure_steps(Subsystem::ModernSidebar, root, facts.modern.config, sidebar_json)
        + reconfigure_steps(Subsystem::Manager, root, facts.manager.config, manager_json)
}

/// Whether anything is installed: one of the three configurations exists.
pub open spec fn installed(facts: PatchFacts) -> bool {
    facts.legacy.config || facts.modern.config || facts.manager.config
}

impl Subsystem {
    /// The key of the error when the entry file cannot be backed up.
    pub fn backup_error(self) -> (r: &'static str)
        ensures
            r@ == self.backup_key(),
    {
        match self {
            Subsystem::Manager => "patchBackend.errors.backupManagerEntryFailed",
            _ => "patchBackend.errors.backupCascadeFailed",
        }
    }

    /// The key of the error when the entry file cannot be restored.
    pub fn restore_error(self) -> (r: &'static str)
        ensures
            r@ == self.restore_key(),
    {
        match self {
            Subsystem::Manager => "patchBackend.errors.restoreManagerEntryFailed",
            _ => "patchBackend.errors.restoreCascadeFailed",
        }
    }

    /// The key of the error when a restore cannot remove the patch files.
    pub fn remove_error(self) -> (r: &'static str)
        ensures
            r@ == self.remove_key(),
    {
        match self {
            Subsystem::Manager => "patchBackend.errors.removeManagerDirFailed",
            _ => "patchBackend.errors.removeCascadeDirFailed",
        }
    }

    /// The key of the error when a deploy cannot remove the old patch files.
    pub fn remove_old_error(self) -> (r: &'static str)
        ensures
            r@ == self.remove_old_key(),
    {
        match self {
            Subsystem::Manager => "patchBackend.errors.removeOldManagerDirFailed",
            _ => "patchBackend.errors.removeOldCascadeDirFailed",
        }
    }

    /// The key of the error when the directory of patch files cannot be made.
    pub fn create_error(self) -> (r: &'static str)
        ensures
            r@ == self.create_key(),
    {
        match self {
            Subsystem::Manager => "patchBackend.errors.createManagerDirFailed",
            _ => "patchBackend.errors.createCascadeDirFailed",
        }
    }

    /// The key of the error when the configuration cannot be written.
    pub fn config_error(self) -> (r: &'static str)
        ensures
            r@ == self.config_key(),
    {
        match self {
            Subsystem::Manager => "patchBackend.errors.writeManagerConfigFailed",
            _ => "patchBackend.errors.writeConfigFailed",
        }
    }

    /// Whether a file of the bundle belongs to this subsystem.
    pub fn keeps_file(self, rel: &str) -> (r: bool)
        ensures
            r == self.keeps(rel@),
    {
        if same_text(rel, self.entry_file()) {
            return true;
        }
        let mut prefix = owned(self.panel_dir());
        prefix.append("/");
        proof {
            reveal_strlit("/");
            assert("/"@ =~= seq!['/']);
        }
        starts_with(rel, prefix.as_str())
    }
}

impl Plan {
    /// The plan of these steps, ending well.
    pub fn of(steps: Vec<Step>) -> (r: Plan)
        ensures
            r@ == PlanView::of(step_views(steps@)),
    {
        Plan { steps, verdict: None }
    }

    /// The plan that does nothing and ends with an error.
    pub fn failing(e: CommandError) -> (r: Plan)
        ensures
            r@ == PlanView::failing(e@),
    {
        let r = Plan { steps: Vec::new(), verdict: Some(e) };
        assert(step_views(r.steps@) =~= Seq::empty());
        r
    }

    /// This plan, and then `next` unless this one ends with an error.
    pub fn and(self, next: Plan) -> (r: Plan)
        ensures
            r@ == self@.and(next@),
    {
        if self.verdict.is_some() {
            return self;
        }
        let mut steps = self.steps;
        let mut more = next.steps;
        let ghost first = steps@;
        let ghost second = more@;
        steps.append(&mut more);
        assert(step_views(steps@) =~= step_views(first) + step_views(second));
        Plan { steps, verdict: next.verdict }
    }
}

/// Joins two lists of steps.
pub fn chain(first: Vec<Step>, second: Vec<Step>) -> (r: Vec<Step>)
    ensures
        step_views(r@) == step_views(first@) + step_views(second@),
{
    let mut steps = first;
    let mut more = second;
    let ghost a = steps@;
    let ghost b = more@;
    steps.append(&mut more);
    assert(step_views(steps@) =~= step_views(a) + step_views(b));
    steps
}

/// The error that a missing bundle is reported as.
pub fn map_embedded_error(err: &EmbeddedError) -> (r: CommandError)
    ensures
        r@ == mapped_error(err@),
{
    match err {
        EmbeddedError::PatchesDirNotFound => CommandError::key(
            "patchBackend.errors.patchesDirNotFound",
        ),
        EmbeddedError::ReadPatchFileFailed { path, detail } => {
            let mut text = debug_quote(path.as_str());
            text.append(": ");
            text.append(detail.as_str());
            let vars = [("detail", text)];
            assert(borrowed_pairs(vars@) =~= seq![
                ("detail"@, debug_quoted(path@) + ": "@ + detail@),
            ]);
            CommandError::key_with("patchBackend.errors.readPatchFileFailed", &vars)
        },
    }
}

/// The step that saves the entry file of a subsystem, where there is one and
/// no backup yet.
pub fn backup_files(sub: Subsystem, root: &FilePath, facts: &SiteFacts) -> (r: Vec<Step>)
    ensures
        step_views(r@) == sub.backup_steps(root@, *facts),
{
    let mut out: Vec<Step> = Vec::new();
    if facts.entry && !facts.backup {
        let base = sub.base(root);
        out.push(
            step(
                Action::CopyFile {
                    from: base.join(sub.entry_file()),
                    to: base.join(sub.backup_file()),
                },
                sub.backup_error(),
            ),
        );
    }
    assert(step_views(out@) =~= sub.backup_steps(root@, *facts));
    out
}

/// Saves the entry file of the legacy sidebar.
pub fn backup_legacy_sidebar_files(root: &FilePath, facts: &PatchFacts) -> (r: Vec<Step>)
    ensures
        step_views(r@) == Subsystem::LegacySidebar.backup_steps(root@, facts.legacy),
{
    backup_files(Subsystem::LegacySidebar, root, &facts.legacy)
}

/// Saves the entry file of the modern sidebar.
pub fn backup_modern_sidebar_files(root: &FilePath, facts: &PatchFacts) -> (r: Vec<Step>)
    ensures
        step_views(r@) == Subsystem::ModernSidebar.backup_steps(root@, facts.modern),
{
    backup_files(Subsystem::ModernSidebar, root, &facts.modern)
}

/// Saves the entry file of the manager.
pub fn backup_manager_files(root: &FilePath, facts: &PatchFacts) -> (r: Vec<Step>)
    ensures
        step_views(r@) == Subsystem::Manager.backup_steps(root@, facts.manager),
{
    backup_files(Subsystem::Manager, root, &facts.manager)
}

/// The steps that bring the entry file of a subsystem back and remove its
/// patch files.
pub fn restore_files(sub: Subsystem, root: &FilePath, facts: &SiteFacts) -> (r: Vec<Step>)
    ensures
        step_views(r@) == sub.restore_steps(root@, *facts),
{
    let base = sub.base(root);
    let mut out: Vec<Step> = Vec::new();
    if facts.backup {
        out.push(
            step(
                Action::CopyFile {
                    from: base.join(sub.backup_file()),
                    to: base.join(sub.entry_file()),
                },
                sub.restore_error(),
            ),
        );
        out.push(step_ignored(Action::RemoveFile { path: base.join(sub.backup_file()) }));
    }
    if facts.panel {
        out.push(
            step(Action::RemoveTree { path: base.join(sub.panel_dir()) }, sub.remove_error()),
        );
    }
    assert(step_views(out@) =~= sub.restore_steps(root@, *facts));
    out
}

/// Restores the legacy sidebar.
pub fn restore_legacy_sidebar_files(root: &FilePath, facts: &PatchFacts) -> (r: Vec<Step>)
    ensures
        step_views(r@) == Subsystem::LegacySidebar.restore_steps(root@, facts.legacy),
{
    restore_files(Subsystem::LegacySidebar, root, &facts.legacy)
}

/// Restores the modern sidebar.
pub fn restore_modern_sidebar_files(root: &FilePath, facts: &PatchFacts) -> (r: Vec<Step>)
    ensures
        step_views(r@) == Subsystem::ModernSidebar.restore_steps(root@, facts.modern),
{
    restore_files(Subsystem::ModernSidebar, root, &facts.modern)
}

/// Restores the manager.
pub fn restore_manager_files(root: &FilePath, facts: &PatchFacts) -> (r: Vec<Step>)
    ensures
        step_views(r@) == Subsystem::Manager.restore_steps(root@, facts.manager),
{
    restore_files(Subsystem::Manager, root, &facts.manager)
}

/// Restores everything: both sidebar layouts and the manager.
pub fn restore_backup_files(root: &FilePath, facts: &PatchFacts) -> (r: Vec<Step>)
    ensures
        step_views(r@) == uninstall_steps(root@, *facts),
{
    let legacy = restore_legacy_sidebar_files(root, facts);
    let modern = restore_modern_sidebar_files(root, facts);
    let manager = restore_manager_files(root, facts);
    chain(chain(legacy, modern), manager)
}

/// The step that writes the configuration of a subsystem.
pub fn write_config(sub: Subsystem, root: &FilePath, json: &str) -> (r: Step)
    ensures
        r@ == sub.config_step(root@, json@),
{
    step(
        Action::WriteText { path: sub.config_path(root), content: owned(json) },
        sub.config_error(),
    )
}

/// The step that writes a sidebar configuration.
pub fn write_config_file(variant: SidebarPatchVariant, root: &FilePath, json: &str) -> (r: Step)
    ensures
        r@ == active_sidebar(variant).config_step(root@, json@),
{
    match variant {
        SidebarPatchVariant::Legacy => write_config(Subsystem::LegacySidebar, root, json),
        SidebarPatchVariant::Modern => write_config(Subsystem::ModernSidebar, root, json),
    }
}

/// The step that writes the manager's configuration.
pub fn write_manager_config_file(root: &FilePath, json: &str) -> (r: Step)
    ensures
        r@ == Subsystem::Manager.config_step(root@, json@),
{
    write_config(Subsystem::Manager, root, json)
}

/// The steps that write one file below a directory: make the file's
/// directory where it is missing, then write the content.
pub fn write_file_steps(base: &FilePath, rel: &str, content: &str) -> (r: Vec<Step>)
    ensures
        step_views(r@) == write_steps(base@.descend(rel_components(rel@)), content@),
{
    let parts = split_rel(rel);
    let place = base.descend(&parts);
    let above = place.above();
    let mut out: Vec<Step> = Vec::new();
    out.push(step(Action::MakeDirs { path: above }, "patchBackend.errors.createDirFailed"));
    out.push(
        step_with_path(
            Action::WriteText { path: place, content: owned(content) },
            "patchBackend.errors.writeFileFailed",
        ),
    );
    assert(step_views(out@) =~= write_steps(base@.descend(rel_components(rel@)), content@));
    out
}

/// The steps that write the files of the bundle that belong to a subsystem.
pub fn write_kept_files(sub: Subsystem, root: &FilePath, files: &Vec<(String, String)>) -> (r: Vec<
    Step,
>)
    ensures
        step_views(r@) == sub.files_steps(root@, file_views(files@)),
{
    let base = sub.base(root);
    let mut out: Vec<Step> = Vec::new();
    let mut i: usize = 0;
    assert(file_views(files@).take(0) =~= Seq::empty());
    assert(step_views(out@) =~= Seq::empty());
    while i < files.len()
        invariant
            i <= files.len(),
            base@ == sub.base_of(root@),
            step_views(out@) == sub.files_steps(root@, file_views(files@).take(i as int)),
        decreases files.len() - i,
    {
        proof {
            assert(file_views(files@).take(i + 1).drop_last() =~= file_views(files@).take(
                i as int,
            ));
            assert(file_views(files@).take(i + 1).last() == (
                files@[i as int].0@,
                files@[i as int].1@,
            ));
        }
        if sub.keeps_file(files[i].0.as_str()) {
            let more = write_file_steps(&base, files[i].0.as_str(), files[i].1.as_str());
            out = chain(out, more);
        }
        i += 1;
    }
    assert(file_views(files@).take(i as int) =~= file_views(files@));
    out
}

/// The plan that deploys a subsystem.
pub fn write_patches(
    sub: Subsystem,
    root: &FilePath,
    facts: &SiteFacts,
    bundle: &Result<Vec<(String, String)>, EmbeddedError>,
    json: &str,
) -> (r: Plan)
    ensures
        r@ == sub.deploy_plan(root@, *facts, bundle_view(*bundle), json@),
{
    let base = sub.base(root);
    let mut open: Vec<Step> = Vec::new();
    if facts.panel {
        open.push(
            step(Action::RemoveTree { path: base.join(sub.panel_dir()) }, sub.remove_old_error()),
        );
    }
    open.push(step(Action::MakeDirs { path: base.join(sub.panel_dir()) }, sub.create_error()));
    assert(step_views(open@) =~= sub.open_steps(root@, *facts));
    let opened = Plan::of(open);
    match bundle {
        Ok(files) => {
            let mut steps = write_kept_files(sub, root, files);
            let ghost before = steps@;
            steps.push(write_config(sub, root, json));
            assert(step_views(steps@) =~= step_views(before).push(sub.config_step(root@, json@)));
            opened.and(Plan::of(steps))
        },
        Err(e) => opened.and(Plan::failing(map_embedded_error(e))),
    }
}

/// Deploys the legacy sidebar.
pub fn write_legacy_sidebar_patches(
    root: &FilePath,
    facts: &PatchFacts,
    bundle: &Result<Vec<(String, String)>, EmbeddedError>,
    json: &str,
) -> (r: Plan)
    ensures
        r@ == Subsystem::LegacySidebar.deploy_plan(
            root@,
            facts.legacy,
            bundle_view(*bundle),
            json@,
        ),
{
    write_patches(Subsystem::LegacySidebar, root, &facts.legacy, bundle, json)
}

/// Deploys the modern sidebar.
pub fn write_modern_sidebar_patches(
    root: &FilePath,
    facts: &PatchFacts,
    bundle: &Result<Vec<(String, String)>, EmbeddedError>,
    json: &str,
) -> (r: Plan)
    ensures
        r@ == Subsystem::ModernSidebar.deploy_plan(
            root@,
            facts.modern,
            bundle_view(*bundle),
            json@,
        ),
{
    write_patches(Subsystem::ModernSidebar, root, &facts.modern, bundle, json)
}

/// Deploys the manager.
pub fn write_manager_patches(
    root: &FilePath,
    facts: &PatchFacts,
    bundle: &Result<Vec<(String, String)>, EmbeddedError>,
    json: &str,
) -> (r: Plan)
    ensures
        r@ == Subsystem::Manager.deploy_plan(root@, facts.manager, bundle_view(*bundle), json@),
{
    write_patches(Subsystem::Manager, root, &facts.manager, bundle, json)
}

/// The plan of an install, once the directories are known to be writable.
pub fn install_steps(
    root: &FilePath,
    facts: &PatchFacts,
    variant: SidebarPatchVariant,
    sidebar: &PanelConfig,
    manager: &PanelConfig,
    bundle: &Result<Vec<(String, String)>, EmbeddedError>,
) -> (r: Plan)
    ensures
        r@ == install_plan(
            root@,
            *facts,
            variant,
            sidebar.enabled,
            sidebar.json@,
            manager.enabled,
            manager.json@,
            bundle_view(*bundle),
        ),
{
    let json = sidebar.json.as_str();
    let side = if sidebar.enabled {
        match variant {
            SidebarPatchVariant::Legacy => Plan::of(backup_legacy_sidebar_files(root, facts)).and(
                write_legacy_sidebar_patches(root, facts, bundle, json),
            ).and(Plan::of(restore_modern_sidebar_files(root, facts))),
            SidebarPatchVariant::Modern => Plan::of(backup_modern_sidebar_files(root, facts)).and(
                write_modern_sidebar_patches(root, facts, bundle, json),
            ).and(Plan::of(restore_legacy_sidebar_files(root, facts))),
        }
    } else {
        Plan::of(
            chain(
                restore_legacy_sidebar_files(root, facts),
                restore_modern_sidebar_files(root, facts),
            ),
        )
    };
    let rest = if manager.enabled {
        Plan::of(backup_manager_files(root, facts)).and(
            write_manager_patches(root, facts, bundle, manager.json.as_str()),
        )
    } else {
        Plan::of(restore_manager_files(root, facts))
    };
    side.and(rest)
}

/// The steps of a reconfiguration: rewrite each configuration that exists.
pub fn update_config_steps(
    root: &FilePath,
    facts: &PatchFacts,
    sidebar_json: &str,
    manager_json: &str,
) -> (r: Vec<Step>)
    ensures
        step_views(r@) == update_steps(root@, *facts, sidebar_json@, manager_json@),
{
    let mut out: Vec<Step> = Vec::new();
    if facts.legacy.config {
        out.push(write_config_file(SidebarPatchVariant::Legacy, root, sidebar_json));
    }
    if facts.modern.config {
        out.push(write_config_file(SidebarPatchVariant::Modern, root, sidebar_json));
    }
    if facts.manager.config {
        out.push(write_manager_config_file(root, manager_json));
    }
    assert(step_views(out@) =~= update_steps(root@, *facts, sidebar_json@, manager_json@));
    out
}

} // verus!
