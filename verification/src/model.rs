//! The engine as a mathematical function: from the job, the state and what
//! the caller reports, to the next state and the next request.

use crate::deploy::{install_plan, installed, mapped_error, uninstall_steps, update_steps,
    write_steps, PlanView};
use crate::escalation::{can_escalate, permission_error, probe_verdict, script_args, script_failure,
    script_name, status_verdict, system_owned, terminal_script, wrapper_verdict, PatchMode};
use crate::i18n::{detailed, keyed, ErrorView};
use crate::json::Json;
use crate::layout::{extensions_dir_of, facts_of, flag_at, manifest_of, watched_of, workbench_dir_of,
    PatchFacts, Subsystem};
use crate::manifest::sanitized;
use crate::paths::{app_root_of, candidates_of, first_valid, marker_of, separator_of, PathView,
    Platform, RootFacts};
use crate::plan::{ActionView, FailureView, StepView};
use crate::protocol::{EventView, JobView, RequestView, StatusView, TempDirView};
use crate::rewrite::{debug_quoted, rel_components};
use crate::version::variant_of_manifest;
use vstd::prelude::*;

verus! {

/// Where an operation stands: what was asked last.
#[derive(Debug, Clone, Copy, PartialEq, Eq, Structural)]
pub enum Phase {
    /// Which candidate is the install root.
    Resolving,
    /// What exists below the resource root.
    Inspecting,
    /// Whether a directory can be written.
    Probing,
    /// The manifest, for the version.
    Versioning,
    /// The steps of the operation itself.
    Patching,
    /// The manifest, for its checksums.
    ReadingManifest,
    /// The manifest written back.
    WritingManifest,
    /// A staging directory.
    Allocating,
    /// The patch files and configurations staged.
    Staging,
    /// Whether the helper script is among them.
    Locating,
    /// The helper script made executable.
    Authorizing,
    /// The helper script run with raised privileges.
    Elevating,
    /// The status file of the terminal session.
    Waiting,
    /// A pause before the status file is looked for again.
    Pausing,
    /// The staging directory removed.
    Cleaning,
    /// Nothing: the operation is over.
    Done,
}

/// The mathematical value of the engine's state.
pub struct MachineView {
    pub phase: Phase,
    /// The resource root, once resolved.
    pub root: PathView,
    /// What exists below it, once inspected.
    pub facts: PatchFacts,
    /// The directories to probe, and the one being probed.
    pub dirs: Seq<PathView>,
    pub next: usize,
    /// The steps of the plan in hand, and the position of the one that the
    /// caller is performing.
    pub pending: Seq<StepView>,
    pub cursor: usize,
    /// The error to end with once they are done, if any.
    pub verdict: Option<ErrorView>,
    /// Whether the manifest is sanitized after them.
    pub sanitize: bool,
    /// The staging directory, and the attempt that made it.
    pub temp: PathView,
    pub attempt: u8,
    /// How the elevated run ended, kept while the staging directory goes.
    pub outcome: Option<ErrorView>,
}

/// The error of an event that does not answer the last request.
pub open spec fn stray_event() -> ErrorView {
    ErrorView::Raw("unexpected event"@)
}

/// How long a terminal session may take, in milliseconds.
pub const STATUS_TIMEOUT_MS: u64 = 900_000;

/// How long to wait before the status file is looked for again, in
/// milliseconds.
pub const STATUS_INTERVAL_MS: u64 = 500;

/// How many names are tried for the staging directory.
pub const TEMP_DIR_ATTEMPTS: u8 = 8;

/// The state before anything was asked.
pub open spec fn initial() -> MachineView {
    MachineView {
        phase: Phase::Resolving,
        root: PathView { anchor: Seq::empty(), names: Seq::empty() },
        facts: facts_of(Seq::empty()),
        dirs: Seq::empty(),
        next: 0,
        pending: Seq::empty(),
        cursor: 0,
        verdict: None,
        sanitize: false,
        temp: PathView { anchor: Seq::empty(), names: Seq::empty() },
        attempt: 0,
        outcome: None,
    }
}

/// The three paths asked of one candidate root: the capitalised resources
/// directory, the marker below it, and the marker below the plain one.
pub open spec fn candidate_queries(c: PathView) -> Seq<PathView> {
    seq![
        c.child("Resources"@),
        marker_of(c.child("Resources"@).child("app"@)),
        marker_of(c.child("resources"@).child("app"@)),
    ]
}

/// The paths asked of all candidates, three each.
pub open spec fn root_queries_of(candidates: Seq<PathView>) -> Seq<PathView>
    decreases candidates.len(),
{
    if candidates.len() == 0 {
        Seq::empty()
    } else {
        root_queries_of(candidates.drop_last()) + candidate_queries(candidates.last())
    }
}

/// The facts of each candidate, read from the answers.
pub open spec fn root_facts_of(flags: Seq<bool>, count: int) -> Seq<RootFacts> {
    Seq::new(
        count as nat,
        |i: int|
            RootFacts {
                capital_resources: flag_at(flags, 3 * i),
                capital_marker: flag_at(flags, 3 * i + 1),
                plain_marker: flag_at(flags, 3 * i + 2),
            },
    )
}

/// The resource root that the answers select: the one below the first valid
/// candidate.
pub open spec fn resolved_root(input: PathView, platform: Platform, flags: Seq<bool>) -> Option<
    PathView,
> {
    let candidates = candidates_of(input);
    let facts = root_facts_of(flags, candidates.len() as int);
    match first_valid(platform, facts, candidates.len() as int, 0) {
        Some(i) => Some(app_root_of(candidates[i], platform, facts[i].capital_resources)),
        None => None,
    }
}

/// The operation ends.
pub open spec fn finish(m: MachineView, result: Option<ErrorView>) -> (MachineView, RequestView) {
    (MachineView { phase: Phase::Done, ..m }, RequestView::Finish(result))
}

/// The elevated run begins, where the platform has one.
pub open spec fn begin_escalation(job: JobView, m: MachineView) -> (MachineView, RequestView) {
    if can_escalate(job.platform) {
        (
            MachineView { phase: Phase::Allocating, attempt: 0, ..m },
            RequestView::MakeTempDir { attempt: 0 },
        )
    } else {
        finish(m, Some(keyed("patchBackend.errors.unsupportedPrivilegedFlow"@)))
    }
}

/// The direct way failed: an error of missing permission leads to the
/// elevated run, any other ends the operation.
pub open spec fn fail_direct(job: JobView, m: MachineView, e: ErrorView) -> (
    MachineView,
    RequestView,
) {
    if permission_error(e) {
        begin_escalation(job, m)
    } else {
        finish(m, Some(e))
    }
}

/// The step that removes the staging directory.
pub open spec fn cleanup_steps(temp: PathView) -> Seq<StepView> {
    seq![
        StepView { action: ActionView::RemoveTree { path: temp }, failure: FailureView::Ignored },
    ]
}

/// The elevated run is over: the staging directory goes, the outcome stays.
pub open spec fn conclude(m: MachineView, outcome: Option<ErrorView>) -> (
    MachineView,
    RequestView,
) {
    (
        MachineView {
            phase: Phase::Cleaning,
            outcome,
            pending: cleanup_steps(m.temp),
            cursor: 0,
            ..m
        },
        RequestView::Perform(ActionView::RemoveTree { path: m.temp }),
    )
}

/// The text of the resource root.
pub open spec fn root_text(job: JobView, m: MachineView) -> Seq<char> {
    m.root.rendered(separator_of(job.platform))
}

/// Whether the staging directory exists in a phase and its removal has not
/// been asked for yet.
pub open spec fn staged(phase: Phase) -> bool {
    phase == Phase::Staging || phase == Phase::Locating || phase == Phase::Authorizing || phase
        == Phase::Elevating || phase == Phase::Waiting || phase == Phase::Pausing
}

/// An event came that does not answer the last request: the operation ends
/// with that as its error, after the staging directory is removed where
/// there is one.
pub open spec fn astray(m: MachineView) -> (MachineView, RequestView) {
    if staged(m.phase) {
        conclude(m, Some(stray_event()))
    } else {
        finish(m, Some(stray_event()))
    }
}

/// The elevated run failed in the helper: the error names the cause.
pub open spec fn helper_failed(job: JobView, m: MachineView, e: ErrorView, catalog: Json) -> (
    MachineView,
    RequestView,
) {
    conclude(m, Some(script_failure(e, root_text(job, m), job.platform, catalog)))
}

/// The error of a step that failed.
pub open spec fn step_error(pending: Seq<StepView>, index: usize, detail: Seq<char>, sep: Seq<char>)
    -> ErrorView {
    if index < pending.len() {
        match pending[index as int].failure {
            FailureView::Key(key) => detailed(key, detail),
            FailureView::KeyWithPath(key) => detailed(
                key,
                debug_quoted(pending[index as int].action.target().rendered(sep)) + ": "@ + detail,
            ),
            FailureView::Ignored => ErrorView::Raw(detail),
        }
    } else {
        ErrorView::Raw(detail)
    }
}

/// The steps of a plan were all performed. What follows depends on the
/// plan: after the steps of the operation, its error if it ends with one,
/// else the manifest where it is to be sanitized; after the staging, the
/// search for the helper script; after the script was made executable, its
/// run; after the cleaning, the end.
pub open spec fn plan_done(job: JobView, m: MachineView) -> (MachineView, RequestView) {
    match m.phase {
        Phase::Patching => match m.verdict {
            Some(e) => fail_direct(job, m, e),
            None => {
                if m.sanitize && m.facts.manifest {
                    (
                        MachineView { phase: Phase::ReadingManifest, ..m },
                        RequestView::ReadText(manifest_of(m.root)),
                    )
                } else {
                    finish(m, None)
                }
            },
        },
        Phase::WritingManifest => finish(m, None),
        Phase::Staging => match m.verdict {
            Some(e) => conclude(m, Some(e)),
            None => (
                MachineView { phase: Phase::Locating, ..m },
                RequestView::Inspect(seq![script_path(job, m)]),
            ),
        },
        Phase::Authorizing => elevate(job, m),
        Phase::Cleaning => finish(m, m.outcome),
        _ => astray(m),
    }
}

/// A step failed and its failure counts. On the direct way an error of
/// missing permission leads to the elevated run and any other ends the
/// operation; in the elevated run the staging directory goes first.
pub open spec fn step_failed(job: JobView, m: MachineView, e: ErrorView) -> (
    MachineView,
    RequestView,
) {
    match m.phase {
        Phase::Patching => fail_direct(job, m, e),
        Phase::WritingManifest => fail_direct(job, m, e),
        Phase::Staging => conclude(m, Some(e)),
        Phase::Authorizing => conclude(m, Some(e)),
        Phase::Cleaning => finish(m, m.outcome),
        _ => astray(m),
    }
}

/// The step at the cursor is asked for, or the plan is done.
pub open spec fn proceed(job: JobView, m: MachineView) -> (MachineView, RequestView) {
    if m.cursor < m.pending.len() {
        (m, RequestView::Perform(m.pending[m.cursor as int].action))
    } else {
        plan_done(job, m)
    }
}

/// A plan is taken in hand: its first step is asked for, or, where it has
/// none, what follows the plan.
pub open spec fn perform(job: JobView, m: MachineView, phase: Phase, plan: PlanView, sanitize: bool)
    -> (MachineView, RequestView) {
    proceed(
        job,
        MachineView {
            phase,
            pending: plan.steps,
            cursor: 0,
            verdict: plan.verdict,
            sanitize,
            ..m
        },
    )
}

/// Whether performing steps is what a phase asks for.
pub open spec fn performing(phase: Phase) -> bool {
    phase == Phase::Patching || phase == Phase::WritingManifest || phase == Phase::Staging || phase
        == Phase::Authorizing || phase == Phase::Cleaning
}

/// A step was performed, or failed. After a success, and after a failure
/// that is ignored, the next step follows. Any other failure is the error of
/// that step.
pub open spec fn on_performed(job: JobView, m: MachineView, result: Result<(), Seq<char>>) -> (
    MachineView,
    RequestView,
) {
    if m.cursor < m.pending.len() {
        let onward = MachineView { cursor: (m.cursor + 1) as usize, ..m };
        match result {
            Ok(_) => proceed(job, onward),
            Err(detail) => {
                if m.pending[m.cursor as int].failure is Ignored {
                    proceed(job, onward)
                } else {
                    step_failed(
                        job,
                        m,
                        step_error(m.pending, m.cursor, detail, separator_of(job.platform)),
                    )
                }
            },
        }
    } else {
        astray(m)
    }
}

/// The directories of the configurations that exist.
pub open spec fn config_dirs(root: PathView, facts: PatchFacts) -> Seq<PathView> {
    let legacy = if facts.legacy.config {
        seq![Subsystem::LegacySidebar.panel_of(root)]
    } else {
        Seq::empty()
    };
    let modern = if facts.modern.config {
        seq![Subsystem::ModernSidebar.panel_of(root)]
    } else {
        Seq::empty()
    };
    let manager = if facts.manager.config {
        seq![Subsystem::Manager.panel_of(root)]
    } else {
        Seq::empty()
    };
    legacy + modern + manager
}

/// The directories that an operation must be able to write.
pub open spec fn probe_dirs(mode: PatchMode, root: PathView, facts: PatchFacts) -> Seq<PathView> {
    match mode {
        PatchMode::Install => seq![extensions_dir_of(root), workbench_dir_of(root), root],
        PatchMode::Uninstall => seq![extensions_dir_of(root), workbench_dir_of(root)],
        PatchMode::UpdateConfig => config_dirs(root, facts),
    }
}

/// What follows once every directory proved writable.
pub open spec fn after_probes(job: JobView, m: MachineView) -> (MachineView, RequestView) {
    match job.mode {
        PatchMode::Install => (
            MachineView { phase: Phase::Versioning, ..m },
            RequestView::ReadText(manifest_of(m.root)),
        ),
        PatchMode::Uninstall => perform(
            job,
            m,
            Phase::Patching,
            PlanView::of(uninstall_steps(m.root, m.facts)),
            false,
        ),
        PatchMode::UpdateConfig => perform(
            job,
            m,
            Phase::Patching,
            PlanView::of(update_steps(m.root, m.facts, job.sidebar.json, job.manager.json)),
            false,
        ),
    }
}

/// The file that a probe of a directory tries to make there.
pub open spec fn probe_file(dir: PathView) -> PathView {
    dir.child(".anti-power-write-test"@)
}

/// The directory at `next` is probed, or the probing is over.
pub open spec fn probe_from(job: JobView, m: MachineView, next: usize) -> (
    MachineView,
    RequestView,
) {
    if next < m.dirs.len() {
        (
            MachineView { phase: Phase::Probing, next, ..m },
            RequestView::Probe(probe_file(m.dirs[next as int])),
        )
    } else {
        after_probes(job, m)
    }
}

/// The resource root is known.
pub open spec fn on_resolved(job: JobView, m: MachineView, flags: Seq<bool>) -> (
    MachineView,
    RequestView,
) {
    match resolved_root(job.input, job.platform, flags) {
        Some(root) => (
            MachineView { phase: Phase::Inspecting, root, ..m },
            RequestView::Inspect(watched_of(root)),
        ),
        None => finish(m, Some(keyed("patchBackend.errors.invalidInstallDir"@))),
    }
}

/// An install, once it is known what exists: both directories must be
/// there; a root in a system-owned place goes straight to the elevated run;
/// else the directories are probed.
pub open spec fn install_checks(job: JobView, m: MachineView) -> (MachineView, RequestView) {
    if !m.facts.extensions_dir {
        finish(m, Some(keyed("patchBackend.errors.invalidInstallDir"@)))
    } else if !m.facts.workbench_dir {
        finish(m, Some(keyed("patchBackend.errors.managerDirMissing"@)))
    } else if system_owned(root_text(job, m), job.platform) {
        begin_escalation(job, m)
    } else {
        probe_from(job, m, 0)
    }
}

/// An uninstall, once it is known what exists: the extension's directory
/// must be there; then the directories are probed.
pub open spec fn uninstall_checks(job: JobView, m: MachineView) -> (MachineView, RequestView) {
    if !m.facts.extensions_dir {
        finish(m, Some(keyed("patchBackend.errors.invalidInstallDir"@)))
    } else {
        probe_from(job, m, 0)
    }
}

/// A reconfiguration, once it is known what exists: one of the three
/// configurations must be there; then their directories are probed.
pub open spec fn update_checks(job: JobView, m: MachineView) -> (MachineView, RequestView) {
    if !installed(m.facts) {
        finish(m, Some(keyed("patchBackend.errors.patchNotInstalled"@)))
    } else {
        probe_from(job, m, 0)
    }
}

/// What exists below the resource root is known.
pub open spec fn on_inspected(job: JobView, m: MachineView, flags: Seq<bool>) -> (
    MachineView,
    RequestView,
) {
    let facts = facts_of(flags);
    let seen = MachineView { facts, dirs: probe_dirs(job.mode, m.root, facts), ..m };
    match job.mode {
        PatchMode::Install => install_checks(job, seen),
        PatchMode::Uninstall => uninstall_checks(job, seen),
        PatchMode::UpdateConfig => update_checks(job, seen),
    }
}

/// A directory cannot be written: the elevated run begins, or, on a
/// platform without one, the error names the directory.
pub open spec fn denied(job: JobView, m: MachineView, dir_text: Seq<char>) -> (
    MachineView,
    RequestView,
) {
    if can_escalate(job.platform) {
        begin_escalation(job, m)
    } else {
        fail_direct(
            job,
            m,
            ErrorView::Localized {
                key: "patchBackend.errors.permissionDeniedDir"@,
                vars: seq![("dir"@, dir_text)],
            },
        )
    }
}

/// A directory was probed.
pub open spec fn on_probed(job: JobView, m: MachineView, outcome: crate::escalation::ProbeView)
    -> (MachineView, RequestView) {
    if m.next < m.dirs.len() {
        let dir_text = m.dirs[m.next as int].rendered(separator_of(job.platform));
        match probe_verdict(dir_text, outcome) {
            Err(e) => fail_direct(job, m, e),
            Ok(false) => denied(job, m, dir_text),
            Ok(true) => {
                if m.next < usize::MAX {
                    probe_from(job, m, (m.next + 1) as usize)
                } else {
                    after_probes(job, m)
                }
            },
        }
    } else {
        astray(m)
    }
}

/// The manifest was read for the version.
pub open spec fn on_version(job: JobView, m: MachineView, read: Result<Seq<char>, Seq<char>>) -> (
    MachineView,
    RequestView,
) {
    let manifest = match read {
        Ok(content) => Some(content),
        Err(_) => None,
    };
    perform(
        job,
        m,
        Phase::Patching,
        install_plan(
            m.root,
            m.facts,
            variant_of_manifest(manifest),
            job.sidebar.enabled,
            job.sidebar.json,
            job.manager.enabled,
            job.manager.json,
            job.bundle,
        ),
        job.sidebar.enabled || job.manager.enabled,
    )
}

/// The step that writes the manifest back.
pub open spec fn manifest_step(root: PathView, text: Seq<char>) -> StepView {
    StepView {
        action: ActionView::WriteText { path: manifest_of(root), content: text },
        failure: FailureView::Key("patchBackend.errors.writeProductJsonFailed"@),
    }
}

/// The manifest was read for its checksums.
pub open spec fn on_manifest(job: JobView, m: MachineView, read: Result<Seq<char>, Seq<char>>) -> (
    MachineView,
    RequestView,
) {
    match read {
        Ok(content) => match sanitized(content) {
            Ok(Some(text)) => perform(
                job,
                m,
                Phase::WritingManifest,
                PlanView::of(seq![manifest_step(m.root, text)]),
                false,
            ),
            Ok(None) => finish(m, None),
            Err(e) => fail_direct(job, m, e),
        },
        Err(detail) => fail_direct(
            job,
            m,
            detailed("patchBackend.errors.readProductJsonFailed"@, detail),
        ),
    }
}

/// The steps that stage every file of the bundle below a directory.
pub open spec fn stage_files(temp: PathView, files: Seq<(Seq<char>, Seq<char>)>) -> Seq<StepView>
    decreases files.len(),
{
    if files.len() == 0 {
        Seq::empty()
    } else {
        stage_files(temp, files.drop_last()) + write_steps(
            temp.descend(rel_components(files.last().0)),
            files.last().1,
        )
    }
}

/// The step that stages one configuration.
pub open spec fn stage_config(temp: PathView, sub: Subsystem, json: Seq<char>) -> StepView {
    StepView {
        action: ActionView::WriteText {
            path: temp.child(sub.panel_name()).child("config.json"@),
            content: json,
        },
        failure: FailureView::Key(sub.config_key()),
    }
}

/// The steps that stage the configurations, for the modes that have them.
pub open spec fn stage_configs(job: JobView, temp: PathView) -> Seq<StepView> {
    if job.mode.configures() {
        seq![
            stage_config(temp, Subsystem::LegacySidebar, job.sidebar.json),
            stage_config(temp, Subsystem::ModernSidebar, job.sidebar.json),
            stage_config(temp, Subsystem::Manager, job.manager.json),
        ]
    } else {
        Seq::empty()
    }
}

/// The plan that fills the staging directory.
pub open spec fn staging_plan(job: JobView, temp: PathView) -> PlanView {
    match job.bundle {
        Ok(files) => PlanView::of(stage_files(temp, files) + stage_configs(job, temp)),
        Err(e) => PlanView::failing(mapped_error(e)),
    }
}

/// The staging directory was made, or not.
pub open spec fn on_temp_dir(job: JobView, m: MachineView, outcome: TempDirView) -> (
    MachineView,
    RequestView,
) {
    match outcome {
        TempDirView::Created(temp) => perform(
            job,
            MachineView { temp, ..m },
            Phase::Staging,
            staging_plan(job, temp),
            false,
        ),
        TempDirView::Taken => {
            if m.attempt + 1 < TEMP_DIR_ATTEMPTS {
                (
                    MachineView { attempt: (m.attempt + 1) as u8, ..m },
                    RequestView::MakeTempDir { attempt: (m.attempt + 1) as u8 },
                )
            } else {
                finish(m, Some(keyed("patchBackend.errors.allocateUniqueTempDirFailed"@)))
            }
        },
        TempDirView::Failed(detail) => finish(
            m,
            Some(detailed("patchBackend.errors.createTempDirFailed"@, detail)),
        ),
    }
}

/// Where the helper script is staged.
pub open spec fn script_path(job: JobView, m: MachineView) -> PathView {
    m.temp.child(script_name(job.locale))
}

/// Where the terminal session leaves its exit code.
pub open spec fn status_path(m: MachineView) -> PathView {
    m.temp.child("privileged-status.txt"@)
}

/// The steps that let the helper script be run.
pub open spec fn authorize_steps(script: PathView) -> Seq<StepView> {
    seq![
        StepView {
            action: ActionView::CheckFile { path: script },
            failure: FailureView::Key("patchBackend.errors.readScriptPermissionsFailed"@),
        },
        StepView {
            action: ActionView::MarkExecutable { path: script },
            failure: FailureView::Key("patchBackend.errors.setScriptPermissionsFailed"@),
        },
    ]
}

/// Whether the helper script is staged is known.
pub open spec fn on_located(job: JobView, m: MachineView, flags: Seq<bool>) -> (
    MachineView,
    RequestView,
) {
    if flag_at(flags, 0) {
        perform(
            job,
            m,
            Phase::Authorizing,
            PlanView::of(authorize_steps(script_path(job, m))),
            false,
        )
    } else {
        conclude(
            m,
            Some(
                ErrorView::Localized {
                    key: "patchBackend.errors.notFound"@,
                    vars: seq![("name"@, script_name(job.locale))],
                },
            ),
        )
    }
}

/// The helper's arguments for a job. An uninstall has no configurations and
/// says that both subsystems are on.
pub open spec fn helper_args(job: JobView, m: MachineView) -> Seq<Seq<char>> {
    if job.mode.configures() {
        script_args(job.mode, root_text(job, m), job.sidebar.enabled, job.manager.enabled)
    } else {
        script_args(job.mode, root_text(job, m), true, true)
    }
}

/// The command that runs the helper through the elevation wrapper.
pub open spec fn wrapper_command(script: Seq<char>, args: Seq<Seq<char>>) -> Seq<Seq<char>> {
    seq!["/bin/bash"@, script] + args
}

/// The helper is started. On macOS a terminal is opened on it by an
/// AppleScript; elsewhere it is run through the elevation wrapper.
pub open spec fn elevate(job: JobView, m: MachineView) -> (MachineView, RequestView) {
    let sep = separator_of(job.platform);
    if job.platform == Platform::MacOs {
        (
            MachineView { phase: Phase::Elevating, ..m },
            RequestView::Run {
                program: "osascript"@,
                args: seq![
                    "-e"@,
                    terminal_script(
                        script_path(job, m).rendered(sep),
                        helper_args(job, m),
                        status_path(m).rendered(sep),
                    ),
                ],
            },
        )
    } else {
        (
            MachineView { phase: Phase::Elevating, ..m },
            RequestView::Run {
                program: "pkexec"@,
                args: wrapper_command(script_path(job, m).rendered(sep), helper_args(job, m)),
            },
        )
    }
}

/// The status file is asked for.
pub open spec fn check_status(m: MachineView) -> (MachineView, RequestView) {
    (
        MachineView { phase: Phase::Waiting, ..m },
        RequestView::CheckStatus { status: status_path(m) },
    )
}

/// The program that starts the helper ran, or could not be started. On
/// macOS it only opened the terminal: whatever it said, the status file is
/// awaited. Elsewhere its end is the helper's end.
pub open spec fn on_elevated(job: JobView, m: MachineView, e: EventView, catalog: Json) -> (
    MachineView,
    RequestView,
) {
    match e {
        EventView::Ran { success, stdout, stderr } => {
            if job.platform == Platform::MacOs {
                check_status(m)
            } else {
                match wrapper_verdict(success, stdout, stderr) {
                    None => conclude(m, None),
                    Some(cause) => helper_failed(job, m, cause, catalog),
                }
            }
        },
        EventView::RunFailed { not_found, detail } => {
            if job.platform == Platform::MacOs {
                helper_failed(
                    job,
                    m,
                    detailed("patchBackend.errors.invokeTerminalFailed"@, detail),
                    catalog,
                )
            } else if not_found {
                helper_failed(job, m, keyed("patchBackend.errors.pkexecNotFound"@), catalog)
            } else {
                helper_failed(
                    job,
                    m,
                    detailed("patchBackend.errors.executePkexecFailed"@, detail),
                    catalog,
                )
            }
        },
        _ => astray(m),
    }
}

/// The status file was looked for.
pub open spec fn on_status(
    job: JobView,
    m: MachineView,
    elapsed_ms: u64,
    file: StatusView,
    catalog: Json,
) -> (MachineView, RequestView) {
    if elapsed_ms >= STATUS_TIMEOUT_MS {
        helper_failed(job, m, keyed("patchBackend.errors.terminalNotFinished"@), catalog)
    } else {
        match file {
            StatusView::Missing => (
                MachineView { phase: Phase::Pausing, ..m },
                RequestView::Pause { millis: STATUS_INTERVAL_MS },
            ),
            StatusView::Content(content) => match status_verdict(content) {
                None => conclude(m, None),
                Some(cause) => helper_failed(job, m, cause, catalog),
            },
            StatusView::Unreadable(detail) => helper_failed(
                job,
                m,
                detailed("patchBackend.errors.readStatusFileFailed"@, detail),
                catalog,
            ),
        }
    }
}

/// The first state and request of a job.
pub open spec fn first(job: JobView) -> (MachineView, RequestView) {
    (initial(), RequestView::Inspect(root_queries_of(candidates_of(job.input))))
}

/// The next state and request, from what the caller reports. An event that
/// does not answer the last request ends the operation.
pub open spec fn next(job: JobView, m: MachineView, e: EventView, catalog: Json) -> (
    MachineView,
    RequestView,
) {
    match (m.phase, e) {
        (Phase::Resolving, EventView::Inspected(flags)) => on_resolved(job, m, flags),
        (Phase::Inspecting, EventView::Inspected(flags)) => on_inspected(job, m, flags),
        (Phase::Probing, EventView::Probed(outcome)) => on_probed(job, m, outcome),
        (Phase::Versioning, EventView::Text(read)) => on_version(job, m, read),
        (Phase::Patching, EventView::Performed(result)) => on_performed(job, m, result),
        (Phase::ReadingManifest, EventView::Text(read)) => on_manifest(job, m, read),
        (Phase::WritingManifest, EventView::Performed(result)) => on_performed(job, m, result),
        (Phase::Allocating, EventView::TempDir(outcome)) => on_temp_dir(job, m, outcome),
        (Phase::Staging, EventView::Performed(result)) => on_performed(job, m, result),
        (Phase::Locating, EventView::Inspected(flags)) => on_located(job, m, flags),
        (Phase::Authorizing, EventView::Performed(result)) => on_performed(job, m, result),
        (Phase::Elevating, _) => on_elevated(job, m, e, catalog),
        (Phase::Waiting, EventView::Status { elapsed_ms, file }) => on_status(
            job,
            m,
            elapsed_ms,
            file,
            catalog,
        ),
        (Phase::Pausing, EventView::Resumed) => check_status(m),
        (Phase::Cleaning, EventView::Performed(result)) => on_performed(job, m, result),
        _ => astray(m),
    }
}

} // verus!
