//! The engine: one step at a time, from what the caller reports to what the
//! caller is to do next.
//!
//! The caller starts a job with `start`, performs the request it is handed,
//! reports the outcome to `advance`, and goes on until the request is `Finish`.

use crate::deploy::{chain, file_views, install_steps, installed, map_embedded_error,
    restore_backup_files, update_config_steps, write_file_steps, EmbeddedError, PanelConfig, Plan};
use crate::escalation::{build_script_args, build_terminal_script, can_write_dir,
    is_permission_error, privileged_failure, read_status, read_wrapper_outcome,
    select_privileged_script, should_use_privileged, PatchMode, ProbeOutcome};
use crate::i18n::{borrowed_pairs, catalog_for, locale_view, pairs, Catalogs, CommandError};
use crate::layout::{extensions_dir, facts_from, manifest_path, watched_paths, workbench_dir,
    PatchFacts, Subsystem};
use crate::manifest::clean_checksums;
use crate::model::{after_probes, astray, authorize_steps, begin_escalation, candidate_queries,
    check_status, cleanup_steps, conclude, elevate, fail_direct, finish, first, helper_args,
    helper_failed, initial, manifest_step, next, on_elevated, on_inspected, on_located, on_manifest,
    on_performed, on_probed, on_resolved, on_status, on_temp_dir, on_version, perform, plan_done,
    probe_dirs, probe_from, proceed, resolved_root, root_facts_of, root_queries_of, script_path,
    stage_config, stage_configs, stage_files, staging_plan, step_error, step_failed, MachineView,
    Phase, STATUS_INTERVAL_MS, STATUS_TIMEOUT_MS, TEMP_DIR_ATTEMPTS};
use crate::numbers::{decimal_text, unsigned_to_text};
use crate::paths::{candidates_of, capital_resources, first_valid, is_valid_antigravity_root,
    marker_path, path_views, resources_app_root, root_candidates, separator, FilePath, Platform,
    RootFacts};
use crate::plan::{step, step_ignored, step_views, Action, Failure, Step, StepView};
use crate::protocol::{Event, Job, Request, RequestView, StatusFile, TempDirOutcome};
use crate::rewrite::{debug_quote, texts};
use crate::text::owned;
use crate::version::detect_sidebar_patch_variant;
use vstd::prelude::*;
use vstd::string::*;

verus! {

/// The engine's state between two steps.
#[derive(Debug)]
pub struct Machine {
    pub phase: Phase,
    pub root: FilePath,
    pub facts: PatchFacts,
    pub dirs: Vec<FilePath>,
    pub next: usize,
    pub pending: Vec<Step>,
    pub cursor: usize,
    pub verdict: Option<CommandError>,
    pub sanitize: bool,
    pub temp: FilePath,
    pub attempt: u8,
    pub outcome: Option<CommandError>,
}

impl View for Machine {
    type V = MachineView;

    open spec fn view(&self) -> MachineView {
        MachineView {
            phase: self.phase,
            root: self.root@,
            facts: self.facts,
            dirs: path_views(self.dirs@),
            next: self.next,
            pending: step_views(self.pending@),
            cursor: self.cursor,
            verdict: match self.verdict {
                Some(e) => Some(e@),
                None => None,
            },
            sanitize: self.sanitize,
            temp: self.temp@,
            attempt: self.attempt,
            outcome: match self.outcome {
                Some(e) => Some(e@),
                None => None,
            },
        }
    }
}

/// The view of a state and a request.
pub open spec fn turn_view(turn: (Machine, Request)) -> (MachineView, RequestView) {
    (turn.0@, turn.1@)
}

/// A copy of an error.
pub fn copy_error(e: &CommandError) -> (r: CommandError)
    ensures
        r@ == e@,
{
    match e {
        CommandError::Localized { key, vars } => {
            let mut out: Vec<(String, String)> = Vec::new();
            let mut i: usize = 0;
            while i < vars.len()
                invariant
                    i <= vars.len(),
                    out@.len() == i,
                    forall|j: int| 0 <= j < i ==> pairs(out@)[j] == pairs(vars@)[j],
                decreases vars.len() - i,
            {
                out.push((vars[i].0.clone(), vars[i].1.clone()));
                i += 1;
            }
            assert(pairs(out@) =~= pairs(vars@));
            CommandError::Localized { key: key.clone(), vars: out }
        },
        CommandError::Raw(message) => CommandError::Raw(message.clone()),
    }
}

/// A copy of an action.
pub fn copy_action(a: &Action) -> (r: Action)
    ensures
        r@ == a@,
{
    match a {
        Action::CopyFile { from, to } => Action::CopyFile { from: from.copy(), to: to.copy() },
        Action::RemoveFile { path } => Action::RemoveFile { path: path.copy() },
        Action::RemoveTree { path } => Action::RemoveTree { path: path.copy() },
        Action::MakeDirs { path } => Action::MakeDirs { path: path.copy() },
        Action::WriteText { path, content } => Action::WriteText {
            path: path.copy(),
            content: content.clone(),
        },
        Action::CheckFile { path } => Action::CheckFile { path: path.copy() },
        Action::MarkExecutable { path } => Action::MarkExecutable { path: path.copy() },
    }
}

/// The locale of a job.
pub fn locale_of(job: &Job) -> (r: Option<&str>)
    ensures
        locale_view(r) == job@.locale,
{
    match &job.locale {
        Some(name) => Some(name.as_str()),
        None => None,
    }
}

/// The paths asked of all candidates, three each.
pub fn root_queries(candidates: &Vec<FilePath>) -> (r: Vec<FilePath>)
    ensures
        path_views(r@) == root_queries_of(path_views(candidates@)),
{
    let mut out: Vec<FilePath> = Vec::new();
    let mut i: usize = 0;
    assert(path_views(candidates@).take(0) =~= Seq::empty());
    assert(path_views(out@) =~= Seq::empty());
    while i < candidates.len()
        invariant
            i <= candidates.len(),
            path_views(out@) == root_queries_of(path_views(candidates@).take(i as int)),
        decreases candidates.len() - i,
    {
        let c = &candidates[i];
        let ghost before = path_views(out@);
        out.push(capital_resources(c));
        out.push(marker_path(&capital_resources(c).join("app")));
        out.push(marker_path(&c.join("resources").join("app")));
        i += 1;
        proof {
            assert(path_views(candidates@).take(i as int).drop_last() =~= path_views(
                candidates@,
            ).take(i - 1));
            assert(path_views(candidates@).take(i as int).last() == c@);
            assert(path_views(out@) =~= before + candidate_queries(c@));
        }
    }
    assert(path_views(candidates@).take(i as int) =~= path_views(candidates@));
    out
}

/// The answer at a position; a missing answer counts as "does not exist".
fn answer(flags: &Vec<bool>, at: usize) -> (r: bool)
    ensures
        r == crate::layout::flag_at(flags@, at as int),
{
    at < flags.len() && flags[at]
}

/// The answer at a position that may lie beyond every list.
fn wide_answer(flags: &Vec<bool>, at: u128) -> (r: bool)
    ensures
        r == crate::layout::flag_at(flags@, at as int),
{
    if at < flags.len() as u128 {
        flags[at as usize]
    } else {
        false
    }
}

/// The facts of the candidate at a position, read from the answers.
fn candidate_facts(flags: &Vec<bool>, at: usize) -> (r: RootFacts)
    ensures
        r == (RootFacts {
            capital_resources: crate::layout::flag_at(flags@, 3 * at),
            capital_marker: crate::layout::flag_at(flags@, 3 * at + 1),
            plain_marker: crate::layout::flag_at(flags@, 3 * at + 2),
        }),
{
    let base: u128 = 3 * (at as u128);
    RootFacts {
        capital_resources: wide_answer(flags, base),
        capital_marker: wide_answer(flags, base + 1),
        plain_marker: wide_answer(flags, base + 2),
    }
}

/// The facts of so many candidates, read from the answers to
/// `root_queries`.
pub fn root_facts(flags: &Vec<bool>, count: usize) -> (r: Vec<RootFacts>)
    ensures
        r@ == root_facts_of(flags@, count as int),
{
    let mut out: Vec<RootFacts> = Vec::new();
    let mut i: usize = 0;
    while i < count
        invariant
            i <= count,
            out@.len() == i,
            forall|j: int| 0 <= j < i ==> out@[j] == root_facts_of(flags@, count as int)[j],
        decreases count - i,
    {
        out.push(candidate_facts(flags, i));
        i += 1;
    }
    assert(out@ =~= root_facts_of(flags@, count as int));
    out
}

/// The resource root that the answers to `root_queries` select, or the
/// error that the path leads to no installation.
pub fn resolve_antigravity_root(input: &FilePath, platform: Platform, flags: &Vec<bool>) -> (r:
    Result<FilePath, CommandError>)
    ensures
        r is Ok <==> resolved_root(input@, platform, flags@) is Some,
        r is Ok ==> r->Ok_0@ == resolved_root(input@, platform, flags@)->0,
        r is Err ==> r->Err_0@ == crate::i18n::keyed("patchBackend.errors.invalidInstallDir"@),
{
    let candidates = root_candidates(input);
    let ghost count = candidates@.len() as int;
    let ghost facts = root_facts_of(flags@, count);
    let mut i: usize = 0;
    while i < candidates.len()
        invariant
            i <= candidates.len(),
            count == candidates@.len(),
            facts == root_facts_of(flags@, count),
            path_views(candidates@) == candidates_of(input@),
            first_valid(platform, facts, count, 0) == first_valid(platform, facts, count, i as int),
        decreases candidates.len() - i,
    {
        let found = candidate_facts(flags, i);
        assert(found == facts[i as int]);
        if is_valid_antigravity_root(platform, &found) {
            assert(path_views(candidates@)[i as int] == candidates@[i as int]@);
            return Ok(resources_app_root(&candidates[i], platform, found.capital_resources));
        }
        i += 1;
    }
    Err(CommandError::key("patchBackend.errors.invalidInstallDir"))
}

/// The error of a step that failed.
pub fn blame(pending: &Vec<Step>, index: usize, detail: &str, sep: &str) -> (r: CommandError)
    ensures
        r@ == step_error(step_views(pending@), index, detail@, sep@),
{
    if index >= pending.len() {
        return CommandError::Raw(owned(detail));
    }
    match &pending[index].failure {
        Failure::Key(key) => {
            let vars = [("detail", owned(detail))];
            assert(borrowed_pairs(vars@) =~= seq![("detail"@, detail@)]);
            CommandError::key_with(key.as_str(), &vars)
        },
        Failure::KeyWithPath(key) => {
            let place = match &pending[index].action {
                Action::CopyFile { from, to } => to.render(sep),
                Action::RemoveFile { path } => path.render(sep),
                Action::RemoveTree { path } => path.render(sep),
                Action::MakeDirs { path } => path.render(sep),
                Action::WriteText { path, content } => path.render(sep),
                Action::CheckFile { path } => path.render(sep),
                Action::MarkExecutable { path } => path.render(sep),
            };
            let mut text = debug_quote(place.as_str());
            text.append(": ");
            text.append(detail);
            let vars = [("detail", text)];
            assert(borrowed_pairs(vars@) =~= seq![
                (
                    "detail"@,
                    crate::rewrite::debug_quoted(
                        step_views(pending@)[index as int].action.target().rendered(sep@),
                    ) + ": "@ + detail@,
                ),
            ]);
            CommandError::key_with(key.as_str(), &vars)
        },
        Failure::Ignored => CommandError::Raw(owned(detail)),
    }
}

impl Machine {
    /// The state before anything was asked.
    pub fn new() -> (r: Machine)
        ensures
            r@ == initial(),
    {
        let empty: Vec<bool> = Vec::new();
        let r = Machine {
            phase: Phase::Resolving,
            root: FilePath::new(String::new(), Vec::new()),
            facts: facts_from(&empty),
            dirs: Vec::new(),
            next: 0,
            pending: Vec::new(),
            cursor: 0,
            verdict: None,
            sanitize: false,
            temp: FilePath::new(String::new(), Vec::new()),
            attempt: 0,
            outcome: None,
        };
        assert(r@.dirs =~= Seq::empty());
        assert(r@.pending =~= Seq::empty());
        assert(r@.root.names =~= Seq::empty());
        assert(r@.temp.names =~= Seq::empty());
        r
    }

    /// Whether the operation is over.
    pub fn is_done(&self) -> (r: bool)
        ensures
            r == (self@.phase == Phase::Done),
    {
        match self.phase {
            Phase::Done => true,
            _ => false,
        }
    }
}

/// The operation ends.
fn finish_with(m: Machine, result: Option<CommandError>) -> (r: (Machine, Request))
    ensures
        turn_view(r) == finish(
            m@,
            match result {
                Some(e) => Some(e@),
                None => None,
            },
        ),
{
    let mut m = m;
    m.phase = Phase::Done;
    (m, Request::Finish(result))
}

/// Begins the elevated run, where the platform has one.
pub fn run_privileged_patch(job: &Job, m: Machine) -> (r: (Machine, Request))
    ensures
        turn_view(r) == begin_escalation(job@, m@),
{
    match job.platform {
        Platform::MacOs | Platform::Linux => {
            let mut m = m;
            m.phase = Phase::Allocating;
            m.attempt = 0;
            (m, Request::MakeTempDir { attempt: 0 })
        },
        _ => finish_with(
            m,
            Some(CommandError::key("patchBackend.errors.unsupportedPrivilegedFlow")),
        ),
    }
}

/// The direct way failed.
fn direct_failure(job: &Job, m: Machine, e: CommandError) -> (r: (Machine, Request))
    ensures
        turn_view(r) == fail_direct(job@, m@, e@),
{
    if is_permission_error(&e) {
        run_privileged_patch(job, m)
    } else {
        finish_with(m, Some(e))
    }
}

/// The elevated run is over: the staging directory goes, the outcome stays.
fn wind_up(m: Machine, outcome: Option<CommandError>) -> (r: (Machine, Request))
    ensures
        turn_view(r) == conclude(
            m@,
            match outcome {
                Some(e) => Some(e@),
                None => None,
            },
        ),
{
    let mut m = m;
    let mut steps: Vec<Step> = Vec::new();
    steps.push(step_ignored(Action::RemoveTree { path: m.temp.copy() }));
    assert(step_views(steps@) =~= cleanup_steps(m.temp@));
    let request = Request::Perform(Action::RemoveTree { path: m.temp.copy() });
    m.phase = Phase::Cleaning;
    m.outcome = outcome;
    m.pending = steps;
    m.cursor = 0;
    (m, request)
}

/// An event came that does not answer the last request.
fn gone_astray(m: Machine) -> (r: (Machine, Request))
    ensures
        turn_view(r) == astray(m@),
{
    match m.phase {
        Phase::Staging | Phase::Locating | Phase::Authorizing | Phase::Elevating | Phase::Waiting
        | Phase::Pausing => wind_up(m, Some(CommandError::Raw(owned("unexpected event")))),
        _ => finish_with(m, Some(CommandError::Raw(owned("unexpected event")))),
    }
}

/// The elevated run failed in the helper.
fn helper_failure(job: &Job, m: Machine, cause: CommandError, catalogs: &Catalogs) -> (r: (
    Machine,
    Request,
))
    ensures
        turn_view(r) == helper_failed(
            job@,
            m@,
            cause@,
            catalog_for(*catalogs, job@.locale),
        ),
{
    let text = m.root.render(separator(job.platform));
    let e = privileged_failure(&cause, text.as_str(), locale_of(job), job.platform, catalogs);
    wind_up(m, Some(e))
}

/// The steps of a plan were all performed: what follows the plan.
pub fn plan_finished(job: &Job, m: Machine) -> (r: (Machine, Request))
    ensures
        turn_view(r) == plan_done(job@, m@),
{
    match m.phase {
        Phase::Patching => {
            let verdict = match &m.verdict {
                Some(e) => Some(copy_error(e)),
                None => None,
            };
            match verdict {
                Some(e) => direct_failure(job, m, e),
                None => {
                    if m.sanitize && m.facts.manifest {
                        let mut m = m;
                        m.phase = Phase::ReadingManifest;
                        let path = manifest_path(&m.root);
                        (m, Request::ReadText(path))
                    } else {
                        finish_with(m, None)
                    }
                },
            }
        },
        Phase::WritingManifest => finish_with(m, None),
        Phase::Staging => {
            let verdict = match &m.verdict {
                Some(e) => Some(copy_error(e)),
                None => None,
            };
            match verdict {
                Some(e) => wind_up(m, Some(e)),
                None => {
                    let mut paths: Vec<FilePath> = Vec::new();
                    paths.push(staged_script(job, &m));
                    assert(path_views(paths@) =~= seq![script_path(job@, m@)]);
                    let mut m = m;
                    m.phase = Phase::Locating;
                    (m, Request::Inspect(paths))
                },
            }
        },
        Phase::Authorizing => run_privileged_script(job, m),
        Phase::Cleaning => {
            let outcome = match &m.outcome {
                Some(e) => Some(copy_error(e)),
                None => None,
            };
            finish_with(m, outcome)
        },
        _ => gone_astray(m),
    }
}

/// A step failed and its failure counts.
fn step_failure(job: &Job, m: Machine, e: CommandError) -> (r: (Machine, Request))
    ensures
        turn_view(r) == step_failed(job@, m@, e@),
{
    match m.phase {
        Phase::Patching | Phase::WritingManifest => direct_failure(job, m, e),
        Phase::Staging | Phase::Authorizing => wind_up(m, Some(e)),
        Phase::Cleaning => {
            let outcome = match &m.outcome {
                Some(e) => Some(copy_error(e)),
                None => None,
            };
            finish_with(m, outcome)
        },
        _ => gone_astray(m),
    }
}

/// The step at the cursor is asked for, or the plan is done.
fn go_on(job: &Job, m: Machine) -> (r: (Machine, Request))
    ensures
        turn_view(r) == proceed(job@, m@),
{
    if m.cursor < m.pending.len() {
        let action = copy_action(&m.pending[m.cursor].action);
        assert(step_views(m.pending@)[m.cursor as int] == m.pending@[m.cursor as int]@);
        (m, Request::Perform(action))
    } else {
        plan_finished(job, m)
    }
}

/// A plan is taken in hand: its first step is asked for, or, where it has
/// none, what follows the plan.
fn hand_out(job: &Job, m: Machine, phase: Phase, plan: Plan, sanitize: bool) -> (r: (
    Machine,
    Request,
))
    ensures
        turn_view(r) == perform(job@, m@, phase, plan@, sanitize),
{
    let mut m = m;
    m.phase = phase;
    m.pending = plan.steps;
    m.cursor = 0;
    m.verdict = plan.verdict;
    m.sanitize = sanitize;
    go_on(job, m)
}

/// A step was performed, or failed.
fn performed(job: &Job, m: Machine, result: &Result<(), String>) -> (r: (Machine, Request))
    ensures
        turn_view(r) == on_performed(
            job@,
            m@,
            match result {
                Ok(_) => Ok(()),
                Err(detail) => Err(detail@),
            },
        ),
{
    if m.cursor >= m.pending.len() {
        return gone_astray(m);
    }
    assert(step_views(m.pending@)[m.cursor as int] == m.pending@[m.cursor as int]@);
    match result {
        Ok(_) => {
            let mut m = m;
            m.cursor = m.cursor + 1;
            go_on(job, m)
        },
        Err(detail) => {
            match &m.pending[m.cursor].failure {
                Failure::Ignored => {
                    let mut m = m;
                    m.cursor = m.cursor + 1;
                    go_on(job, m)
                },
                _ => {
                    let e = blame(
                        &m.pending,
                        m.cursor,
                        detail.as_str(),
                        separator(job.platform),
                    );
                    step_failure(job, m, e)
                },
            }
        },
    }
}

/// The directories that an operation must be able to write.
fn dirs_to_probe(mode: PatchMode, root: &FilePath, facts: &PatchFacts) -> (r: Vec<FilePath>)
    ensures
        path_views(r@) == probe_dirs(mode, root@, *facts),
{
    let mut out: Vec<FilePath> = Vec::new();
    match mode {
        PatchMode::Install => {
            out.push(extensions_dir(root));
            out.push(workbench_dir(root));
            out.push(root.copy());
        },
        PatchMode::Uninstall => {
            out.push(extensions_dir(root));
            out.push(workbench_dir(root));
        },
        PatchMode::UpdateConfig => {
            if facts.legacy.config {
                out.push(
                    Subsystem::LegacySidebar.base(root).join(Subsystem::LegacySidebar.panel_dir()),
                );
            }
            if facts.modern.config {
                out.push(
                    Subsystem::ModernSidebar.base(root).join(Subsystem::ModernSidebar.panel_dir()),
                );
            }
            if facts.manager.config {
                out.push(Subsystem::Manager.base(root).join(Subsystem::Manager.panel_dir()));
            }
        },
    }
    assert(path_views(out@) =~= probe_dirs(mode, root@, *facts));
    out
}

/// What follows once every directory proved writable.
fn go_on_after_probes(job: &Job, m: Machine) -> (r: (Machine, Request))
    ensures
        turn_view(r) == after_probes(job@, m@),
{
    match job.mode {
        PatchMode::Install => {
            let mut m = m;
            m.phase = Phase::Versioning;
            let path = manifest_path(&m.root);
            (m, Request::ReadText(path))
        },
        PatchMode::Uninstall => {
            let plan = Plan::of(restore_backup_files(&m.root, &m.facts));
            hand_out(job, m, Phase::Patching, plan, false)
        },
        PatchMode::UpdateConfig => {
            let plan = Plan::of(
                update_config_steps(
                    &m.root,
                    &m.facts,
                    job.sidebar.json.as_str(),
                    job.manager.json.as_str(),
                ),
            );
            hand_out(job, m, Phase::Patching, plan, false)
        },
    }
}

/// Looks for the first directory that cannot be written: the directory at
/// `next` is probed, or the probing is over.
pub fn first_unwritable_dir(job: &Job, m: Machine, next: usize) -> (r: (Machine, Request))
    ensures
        turn_view(r) == probe_from(job@, m@, next),
{
    if next < m.dirs.len() {
        let mut m = m;
        m.phase = Phase::Probing;
        m.next = next;
        let file = m.dirs[next].join(".anti-power-write-test");
        (m, Request::Probe(file))
    } else {
        go_on_after_probes(job, m)
    }
}

/// The first state and request of a job.
pub fn start(job: &Job) -> (r: (Machine, Request))
    ensures
        turn_view(r) == first(job@),
{
    let candidates = root_candidates(&job.input);
    (Machine::new(), Request::Inspect(root_queries(&candidates)))
}

/// The resource root is known.
fn resolved(job: &Job, m: Machine, flags: &Vec<bool>) -> (r: (Machine, Request))
    ensures
        turn_view(r) == on_resolved(job@, m@, flags@),
{
    match resolve_antigravity_root(&job.input, job.platform, flags) {
        Ok(root) => {
            let mut m = m;
            m.phase = Phase::Inspecting;
            let paths = watched_paths(&root);
            m.root = root;
            (m, Request::Inspect(paths))
        },
        Err(e) => finish_with(m, Some(e)),
    }
}

/// An install, once it is known what exists: both directories must be
/// there; a root in a system-owned place goes straight to the elevated run;
/// else the directories are probed.
pub fn install_patch_internal(job: &Job, m: Machine) -> (r: (Machine, Request))
    ensures
        turn_view(r) == crate::model::install_checks(job@, m@),
{
    let text = m.root.render(separator(job.platform));
    if !m.facts.extensions_dir {
        finish_with(m, Some(CommandError::key("patchBackend.errors.invalidInstallDir")))
    } else if !m.facts.workbench_dir {
        finish_with(m, Some(CommandError::key("patchBackend.errors.managerDirMissing")))
    } else if should_use_privileged(text.as_str(), job.platform) {
        run_privileged_patch(job, m)
    } else {
        first_unwritable_dir(job, m, 0)
    }
}

/// An uninstall, once it is known what exists: the extension's directory
/// must be there; then the directories are probed.
pub fn uninstall_patch_internal(job: &Job, m: Machine) -> (r: (Machine, Request))
    ensures
        turn_view(r) == crate::model::uninstall_checks(job@, m@),
{
    if !m.facts.extensions_dir {
        finish_with(m, Some(CommandError::key("patchBackend.errors.invalidInstallDir")))
    } else {
        first_unwritable_dir(job, m, 0)
    }
}

/// A reconfiguration, once it is known what exists: one of the three
/// configurations must be there; then their directories are probed.
pub fn update_config_internal(job: &Job, m: Machine) -> (r: (Machine, Request))
    ensures
        turn_view(r) == crate::model::update_checks(job@, m@),
{
    if !check_patch_status(&m.facts) {
        finish_with(m, Some(CommandError::key("patchBackend.errors.patchNotInstalled")))
    } else {
        first_unwritable_dir(job, m, 0)
    }
}

/// What exists below the resource root is known.
fn inspected(job: &Job, m: Machine, flags: &Vec<bool>) -> (r: (Machine, Request))
    ensures
        turn_view(r) == on_inspected(job@, m@, flags@),
{
    let facts = facts_from(flags);
    let mut m = m;
    m.dirs = dirs_to_probe(job.mode, &m.root, &facts);
    m.facts = facts;
    match job.mode {
        PatchMode::Install => install_patch_internal(job, m),
        PatchMode::Uninstall => uninstall_patch_internal(job, m),
        PatchMode::UpdateConfig => update_config_internal(job, m),
    }
}

/// A directory cannot be written: the elevated run begins, or, on a
/// platform without one, the error names the directory.
pub fn handle_privileged_or_error(job: &Job, m: Machine, dir_text: String) -> (r: (
    Machine,
    Request,
))
    ensures
        turn_view(r) == crate::model::denied(job@, m@, dir_text@),
{
    match job.platform {
        Platform::MacOs | Platform::Linux => run_privileged_patch(job, m),
        _ => {
            let vars = [("dir", dir_text)];
            assert(borrowed_pairs(vars@) =~= seq![("dir"@, dir_text@)]);
            let e = CommandError::key_with("patchBackend.errors.permissionDeniedDir", &vars);
            direct_failure(job, m, e)
        },
    }
}

/// A directory was probed.
fn probed(job: &Job, m: Machine, outcome: &ProbeOutcome) -> (r: (Machine, Request))
    ensures
        turn_view(r) == on_probed(job@, m@, outcome@),
{
    if m.next >= m.dirs.len() {
        return gone_astray(m);
    }
    let dir_text = m.dirs[m.next].render(separator(job.platform));
    assert(path_views(m.dirs@)[m.next as int] == m.dirs@[m.next as int]@);
    match can_write_dir(dir_text.as_str(), outcome) {
        Err(e) => direct_failure(job, m, e),
        Ok(false) => handle_privileged_or_error(job, m, dir_text),
        Ok(true) => {
            if m.next < usize::MAX {
                let next = m.next + 1;
                first_unwritable_dir(job, m, next)
            } else {
                go_on_after_probes(job, m)
            }
        },
    }
}

/// The manifest was read for the version.
fn versioned(job: &Job, m: Machine, read: &Result<String, String>) -> (r: (Machine, Request))
    ensures
        turn_view(r) == on_version(
            job@,
            m@,
            match read {
                Ok(text) => Ok(text@),
                Err(detail) => Err(detail@),
            },
        ),
{
    let variant = match read {
        Ok(content) => detect_sidebar_patch_variant(Some(content.as_str())),
        Err(_) => detect_sidebar_patch_variant(None),
    };
    let plan = install_steps(&m.root, &m.facts, variant, &job.sidebar, &job.manager, &job.bundle);
    hand_out(job, m, Phase::Patching, plan, job.sidebar.enabled || job.manager.enabled)
}

/// The manifest was read for its checksums.
fn manifest_read(job: &Job, m: Machine, read: &Result<String, String>) -> (r: (Machine, Request))
    ensures
        turn_view(r) == on_manifest(
            job@,
            m@,
            match read {
                Ok(text) => Ok(text@),
                Err(detail) => Err(detail@),
            },
        ),
{
    match read {
        Ok(content) => match clean_checksums(content.as_str()) {
            Ok(Some(text)) => {
                let mut steps: Vec<Step> = Vec::new();
                steps.push(
                    step(
                        Action::WriteText { path: manifest_path(&m.root), content: text },
                        "patchBackend.errors.writeProductJsonFailed",
                    ),
                );
                assert(step_views(steps@) =~= seq![manifest_step(m.root@, text@)]);
                hand_out(job, m, Phase::WritingManifest, Plan::of(steps), false)
            },
            Ok(None) => finish_with(m, None),
            Err(e) => direct_failure(job, m, e),
        },
        Err(detail) => {
            let vars = [("detail", detail.clone())];
            assert(borrowed_pairs(vars@) =~= seq![("detail"@, detail@)]);
            let e = CommandError::key_with("patchBackend.errors.readProductJsonFailed", &vars);
            direct_failure(job, m, e)
        },
    }
}

/// The steps that stage every file of the bundle below a directory.
pub fn write_embedded_files_to_dir(temp: &FilePath, files: &Vec<(String, String)>) -> (r: Vec<Step>)
    ensures
        step_views(r@) == stage_files(temp@, file_views(files@)),
{
    let mut out: Vec<Step> = Vec::new();
    let mut i: usize = 0;
    assert(file_views(files@).take(0) =~= Seq::empty());
    assert(step_views(out@) =~= Seq::empty());
    while i < files.len()
        invariant
            i <= files.len(),
            step_views(out@) == stage_files(temp@, file_views(files@).take(i as int)),
        decreases files.len() - i,
    {
        proof {
            assert(file_views(files@).take(i + 1).drop_last() =~= file_views(files@).take(
                i as int,
            ));
            assert(file_views(files@).take(i + 1).last() == (
                files@[i as int].0@,
                files@[i as int].1@,
            ));
        }
        let more = write_file_steps(temp, files[i].0.as_str(), files[i].1.as_str());
        out = chain(out, more);
        i += 1;
    }
    assert(file_views(files@).take(i as int) =~= file_views(files@));
    out
}

/// The step that stages one configuration.
fn staged_config(temp: &FilePath, sub: Subsystem, json: &str) -> (r: Step)
    ensures
        r@ == stage_config(temp@, sub, json@),
{
    step(
        Action::WriteText {
            path: temp.join(sub.panel_dir()).join("config.json"),
            content: owned(json),
        },
        sub.config_error(),
    )
}

/// The plan that fills the staging directory: every file of the bundle, and
/// the three configurations where the mode has them.
pub fn prepare_staging(job: &Job, temp: &FilePath) -> (r: Plan)
    ensures
        r@ == staging_plan(job@, temp@),
{
    match &job.bundle {
        Ok(files) => {
            let mut steps = write_embedded_files_to_dir(temp, files);
            let ghost staged = step_views(steps@);
            match job.mode {
                PatchMode::Uninstall => {
                    assert(stage_configs(job@, temp@) =~= Seq::empty());
                    assert(staged + Seq::<StepView>::empty() =~= staged);
                },
                _ => {
                    steps.push(
                        staged_config(temp, Subsystem::LegacySidebar, job.sidebar.json.as_str()),
                    );
                    steps.push(
                        staged_config(temp, Subsystem::ModernSidebar, job.sidebar.json.as_str()),
                    );
                    steps.push(staged_config(temp, Subsystem::Manager, job.manager.json.as_str()));
                    assert(step_views(steps@) =~= staged + stage_configs(job@, temp@));
                },
            }
            Plan::of(steps)
        },
        Err(e) => Plan::failing(map_embedded_error(e)),
    }
}

/// Makes the staging directory in up to eight attempts: what follows each
/// attempt.
pub fn prepare_temp_patch_dir(job: &Job, m: Machine, outcome: TempDirOutcome) -> (r: (
    Machine,
    Request,
))
    ensures
        turn_view(r) == on_temp_dir(job@, m@, outcome@),
{
    match outcome {
        TempDirOutcome::Created(temp) => {
            let plan = prepare_staging(job, &temp);
            let mut m = m;
            m.temp = temp;
            hand_out(job, m, Phase::Staging, plan, false)
        },
        TempDirOutcome::Taken => {
            if m.attempt < TEMP_DIR_ATTEMPTS - 1 {
                let mut m = m;
                m.attempt = m.attempt + 1;
                let attempt = m.attempt;
                (m, Request::MakeTempDir { attempt })
            } else {
                finish_with(
                    m,
                    Some(CommandError::key("patchBackend.errors.allocateUniqueTempDirFailed")),
                )
            }
        },
        TempDirOutcome::Failed(detail) => {
            let vars = [("detail", detail)];
            assert(borrowed_pairs(vars@) =~= seq![("detail"@, detail@)]);
            finish_with(
                m,
                Some(CommandError::key_with("patchBackend.errors.createTempDirFailed", &vars)),
            )
        },
    }
}

/// Where the helper script is staged.
fn staged_script(job: &Job, m: &Machine) -> (r: FilePath)
    ensures
        r@ == script_path(job@, m@),
{
    m.temp.join(select_privileged_script(locale_of(job)))
}

/// The steps that let the helper script be run.
pub fn ensure_script_executable(script: &FilePath) -> (r: Vec<Step>)
    ensures
        step_views(r@) == authorize_steps(script@),
{
    let mut steps: Vec<Step> = Vec::new();
    steps.push(
        step(
            Action::CheckFile { path: script.copy() },
            "patchBackend.errors.readScriptPermissionsFailed",
        ),
    );
    steps.push(
        step(
            Action::MarkExecutable { path: script.copy() },
            "patchBackend.errors.setScriptPermissionsFailed",
        ),
    );
    assert(step_views(steps@) =~= authorize_steps(script@));
    steps
}

/// Whether the helper script is staged is known.
fn located(job: &Job, m: Machine, flags: &Vec<bool>) -> (r: (Machine, Request))
    ensures
        turn_view(r) == on_located(job@, m@, flags@),
{
    if answer(flags, 0) {
        let steps = ensure_script_executable(&staged_script(job, &m));
        hand_out(job, m, Phase::Authorizing, Plan::of(steps), false)
    } else {
        let vars = [("name", owned(select_privileged_script(locale_of(job))))];
        assert(borrowed_pairs(vars@) =~= seq![
            ("name"@, crate::escalation::script_name(job@.locale)),
        ]);
        wind_up(m, Some(CommandError::key_with("patchBackend.errors.notFound", &vars)))
    }
}

/// The helper's arguments for a job.
fn arguments(job: &Job, m: &Machine) -> (r: Vec<String>)
    ensures
        texts(r@) == helper_args(job@, m@),
{
    let text = m.root.render(separator(job.platform));
    match job.mode {
        PatchMode::Uninstall => build_script_args(job.mode, text.as_str(), true, true),
        _ => build_script_args(
            job.mode,
            text.as_str(),
            job.sidebar.enabled,
            job.manager.enabled,
        ),
    }
}

/// The helper is started.
pub fn run_privileged_script(job: &Job, m: Machine) -> (r: (Machine, Request))
    ensures
        turn_view(r) == elevate(job@, m@),
{
    let script = staged_script(job, &m);
    let args = arguments(job, &m);
    let sep = separator(job.platform);
    let script_text = script.render(sep);
    match job.platform {
        Platform::MacOs => {
            let status = m.temp.join("privileged-status.txt");
            let status_text = status.render(sep);
            let apple_script = build_terminal_script(
                script_text.as_str(),
                &args,
                status_text.as_str(),
            );
            let mut command: Vec<String> = Vec::new();
            command.push(owned("-e"));
            command.push(apple_script);
            assert(texts(command@) =~= seq!["-e"@, apple_script@]);
            let mut m = m;
            m.phase = Phase::Elevating;
            (m, Request::Run { program: owned("osascript"), args: command })
        },
        _ => {
            let mut command: Vec<String> = Vec::new();
            command.push(owned("/bin/bash"));
            command.push(script_text);
            let ghost head = texts(command@);
            let mut rest = args;
            let ghost tail = texts(rest@);
            command.append(&mut rest);
            assert(texts(command@) =~= head + tail);
            assert(head =~= seq!["/bin/bash"@, script_text@]);
            let mut m = m;
            m.phase = Phase::Elevating;
            (m, Request::Run { program: owned("pkexec"), args: command })
        },
    }
}

/// The status file is asked for.
fn ask_status(m: Machine) -> (r: (Machine, Request))
    ensures
        turn_view(r) == check_status(m@),
{
    let mut m = m;
    m.phase = Phase::Waiting;
    let status = m.temp.join("privileged-status.txt");
    (m, Request::CheckStatus { status })
}

/// The program that starts the helper ran, or could not be started.
fn elevated(job: &Job, m: Machine, event: Event, catalogs: &Catalogs) -> (r: (Machine, Request))
    ensures
        turn_view(r) == on_elevated(job@, m@, event@, catalog_for(*catalogs, job@.locale)),
{
    match event {
        Event::Ran { success, stdout, stderr } => {
            match job.platform {
                Platform::MacOs => ask_status(m),
                _ => match read_wrapper_outcome(success, stdout.as_str(), stderr.as_str()) {
                    None => wind_up(m, None),
                    Some(cause) => helper_failure(job, m, cause, catalogs),
                },
            }
        },
        Event::RunFailed { not_found, detail } => {
            match job.platform {
                Platform::MacOs => {
                    let vars = [("detail", detail)];
                    assert(borrowed_pairs(vars@) =~= seq![("detail"@, detail@)]);
                    helper_failure(
                        job,
                        m,
                        CommandError::key_with("patchBackend.errors.invokeTerminalFailed", &vars),
                        catalogs,
                    )
                },
                _ => {
                    if not_found {
                        helper_failure(
                            job,
                            m,
                            CommandError::key("patchBackend.errors.pkexecNotFound"),
                            catalogs,
                        )
                    } else {
                        let vars = [("detail", detail)];
                        assert(borrowed_pairs(vars@) =~= seq![("detail"@, detail@)]);
                        helper_failure(
                            job,
                            m,
                            CommandError::key_with(
                                "patchBackend.errors.executePkexecFailed",
                                &vars,
                            ),
                            catalogs,
                        )
                    }
                },
            }
        },
        _ => gone_astray(m),
    }
}

/// The status file was looked for.
pub fn wait_for_status(
    job: &Job,
    m: Machine,
    elapsed_ms: u64,
    file: StatusFile,
    catalogs: &Catalogs,
) -> (r: (Machine, Request))
    ensures
        turn_view(r) == on_status(
            job@,
            m@,
            elapsed_ms,
            file@,
            catalog_for(*catalogs, job@.locale),
        ),
{
    if elapsed_ms >= STATUS_TIMEOUT_MS {
        return helper_failure(
            job,
            m,
            CommandError::key("patchBackend.errors.terminalNotFinished"),
            catalogs,
        );
    }
    match file {
        StatusFile::Missing => {
            let mut m = m;
            m.phase = Phase::Pausing;
            (m, Request::Pause { millis: STATUS_INTERVAL_MS })
        },
        StatusFile::Content(content) => match read_status(content.as_str()) {
            None => wind_up(m, None),
            Some(cause) => helper_failure(job, m, cause, catalogs),
        },
        StatusFile::Unreadable(detail) => {
            let vars = [("detail", detail)];
            assert(borrowed_pairs(vars@) =~= seq![("detail"@, detail@)]);
            helper_failure(
                job,
                m,
                CommandError::key_with("patchBackend.errors.readStatusFileFailed", &vars),
                catalogs,
            )
        },
    }
}

/// The next state and request, from what the caller reports.
#[verifier::rlimit(60)]
pub fn advance(job: &Job, m: Machine, event: Event, catalogs: &Catalogs) -> (r: (
    Machine,
    Request,
))
    ensures
        turn_view(r) == next(job@, m@, event@, catalog_for(*catalogs, job@.locale)),
{
    match m.phase {
        Phase::Resolving => match event {
            Event::Inspected(flags) => resolved(job, m, &flags),
            _ => gone_astray(m),
        },
        Phase::Inspecting => match event {
            Event::Inspected(flags) => inspected(job, m, &flags),
            _ => gone_astray(m),
        },
        Phase::Probing => match event {
            Event::Probed(outcome) => probed(job, m, &outcome),
            _ => gone_astray(m),
        },
        Phase::Versioning => match event {
            Event::Text(read) => versioned(job, m, &read),
            _ => gone_astray(m),
        },
        Phase::Patching => match event {
            Event::Performed(result) => performed(job, m, &result),
            _ => gone_astray(m),
        },
        Phase::ReadingManifest => match event {
            Event::Text(read) => manifest_read(job, m, &read),
            _ => gone_astray(m),
        },
        Phase::WritingManifest => match event {
            Event::Performed(result) => performed(job, m, &result),
            _ => gone_astray(m),
        },
        Phase::Allocating => match event {
            Event::TempDir(outcome) => prepare_temp_patch_dir(job, m, outcome),
            _ => gone_astray(m),
        },
        Phase::Staging => match event {
            Event::Performed(result) => performed(job, m, &result),
            _ => gone_astray(m),
        },
        Phase::Locating => match event {
            Event::Inspected(flags) => located(job, m, &flags),
            _ => gone_astray(m),
        },
        Phase::Authorizing => match event {
            Event::Performed(result) => performed(job, m, &result),
            _ => gone_astray(m),
        },
        Phase::Elevating => elevated(job, m, event, catalogs),
        Phase::Waiting => match event {
            Event::Status { elapsed_ms, file } => wait_for_status(
                job,
                m,
                elapsed_ms,
                file,
                catalogs,
            ),
            _ => gone_astray(m),
        },
        Phase::Pausing => match event {
            Event::Resumed => ask_status(m),
            _ => gone_astray(m),
        },
        Phase::Cleaning => match event {
            Event::Performed(result) => performed(job, m, &result),
            _ => gone_astray(m),
        },
        Phase::Done => gone_astray(m),
    }
}

/// The job of an install.
pub fn install_patch(
    path: FilePath,
    features: PanelConfig,
    manager_features: PanelConfig,
    locale: Option<String>,
    platform: Platform,
    bundle: Result<Vec<(String, String)>, EmbeddedError>,
) -> (r: Job)
    ensures
        r.mode == PatchMode::Install,
        r.platform == platform,
        r.input == path,
        r.sidebar == features,
        r.manager == manager_features,
        r.locale == locale,
        r.bundle == bundle,
{
    Job {
        mode: PatchMode::Install,
        platform,
        input: path,
        sidebar: features,
        manager: manager_features,
        locale,
        bundle,
    }
}

/// The job of an uninstall. It has no configurations of its own: both
/// subsystems count as on, with empty configurations.
pub fn uninstall_patch(
    path: FilePath,
    locale: Option<String>,
    platform: Platform,
    bundle: Result<Vec<(String, String)>, EmbeddedError>,
) -> (r: Job)
    ensures
        r.mode == PatchMode::Uninstall,
        r.platform == platform,
        r.input == path,
        r.sidebar@ == (crate::protocol::ConfigView { enabled: true, json: Seq::empty() }),
        r.manager@ == (crate::protocol::ConfigView { enabled: true, json: Seq::empty() }),
        r.locale == locale,
        r.bundle == bundle,
{
    Job {
        mode: PatchMode::Uninstall,
        platform,
        input: path,
        sidebar: PanelConfig { enabled: true, json: String::new() },
        manager: PanelConfig { enabled: true, json: String::new() },
        locale,
        bundle,
    }
}

/// The job of a reconfiguration.
pub fn update_config(
    path: FilePath,
    features: PanelConfig,
    manager_features: PanelConfig,
    locale: Option<String>,
    platform: Platform,
    bundle: Result<Vec<(String, String)>, EmbeddedError>,
) -> (r: Job)
    ensures
        r.mode == PatchMode::UpdateConfig,
        r.platform == platform,
        r.input == path,
        r.sidebar == features,
        r.manager == manager_features,
        r.locale == locale,
        r.bundle == bundle,
{
    Job {
        mode: PatchMode::UpdateConfig,
        platform,
        input: path,
        sidebar: features,
        manager: manager_features,
        locale,
        bundle,
    }
}

/// Whether anything is installed: one of the three configurations exists.
pub fn check_patch_status(facts: &PatchFacts) -> (r: bool)
    ensures
        r == installed(*facts),
{
    facts.legacy.config || facts.modern.config || facts.manager.config
}

/// The configuration from which the sidebar's settings are read: the legacy
/// one where it exists, else the modern one, else none.
pub fn read_patch_config(root: &FilePath, facts: &PatchFacts) -> (r: Option<FilePath>)
    ensures
        facts.legacy.config ==> r is Some && r->0@ == Subsystem::LegacySidebar.config_of(root@),
        !facts.legacy.config && facts.modern.config ==> r is Some && r->0@
            == Subsystem::ModernSidebar.config_of(root@),
        !facts.legacy.config && !facts.modern.config ==> r is None,
{
    if facts.legacy.config {
        Some(Subsystem::LegacySidebar.config_path(root))
    } else if facts.modern.config {
        Some(Subsystem::ModernSidebar.config_path(root))
    } else {
        None
    }
}

/// The configuration from which the manager's settings are read, where it
/// exists.
pub fn read_manager_patch_config(root: &FilePath, facts: &PatchFacts) -> (r: Option<FilePath>)
    ensures
        facts.manager.config ==> r is Some && r->0@ == Subsystem::Manager.config_of(root@),
        !facts.manager.config ==> r is None,
{
    if facts.manager.config {
        Some(Subsystem::Manager.config_path(root))
    } else {
        None
    }
}

/// The name of a staging directory: a fixed word, then the process, a
/// number that differs from call to call, and the attempt.
pub open spec fn temp_dir_name_of(pid: u32, nonce: u128, attempt: u8) -> Seq<char> {
    "anti-power-privileged-"@ + decimal_text(pid as nat) + "-"@ + decimal_text(nonce as nat) + "-"@
        + decimal_text(attempt as nat)
}

/// The name under which the caller makes the staging directory.
pub fn temp_dir_name(pid: u32, nonce: u128, attempt: u8) -> (r: String)
    ensures
        r@ == temp_dir_name_of(pid, nonce, attempt),
{
    let mut name = owned("anti-power-privileged-");
    let a = unsigned_to_text(pid as u128);
    name.append(a.as_str());
    name.append("-");
    let b = unsigned_to_text(nonce);
    name.append(b.as_str());
    name.append("-");
    let c = unsigned_to_text(attempt as u128);
    name.append(c.as_str());
    name
}

} // verus!
