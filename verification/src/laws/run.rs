//! What holds of every run of the engine: which request follows which
//! event.

use crate::deploy::{install_plan, installed, uninstall_steps};
use crate::escalation::{can_escalate, permission_error, script_failure, status_verdict,
    system_owned, wrapper_verdict, PatchMode, ProbeView};
use crate::i18n::keyed;
use crate::json::{parsed_value, Json};
use crate::layout::{extensions_dir_of, facts_of, lemma_watched_facts, manifest_of, observed,
    watched_of, workbench_dir_of};
use crate::manifest::{holds_any, patched_entries, sanitized};
use crate::model::{begin_escalation, candidate_queries, cleanup_steps, finish, first, manifest_step,
    next, performing, plan_done, probe_file, resolved_root, root_facts_of, root_queries_of,
    root_text, staged, status_path, step_error, MachineView, Phase, STATUS_INTERVAL_MS,
    STATUS_TIMEOUT_MS};
use crate::paths::{candidates_of, first_valid, marker_of, separator_of, valid_root, PathView,
    Platform, RootFacts};
use crate::plan::{ActionView, World};
use crate::protocol::{EventView, JobView, RequestView, StatusView};
use crate::version::variant_of_manifest;
use vstd::prelude::*;

verus! {

/// The steps of a plan are asked for in order. While the plan in hand has a
/// step after the one just performed, that step is asked for next; after
/// the last one comes what follows the plan. (A plan of the engine is a
/// `Vec`: it has no more steps than a `usize` counts.)
pub proof fn lemma_steps_in_order(job: JobView, m: MachineView, catalog: Json)
    requires
        performing(m.phase),
        m.cursor < m.pending.len() <= usize::MAX,
    ensures
        ({
            let turn = next(job, m, EventView::Performed(Ok(())), catalog);
            let onward = MachineView { cursor: (m.cursor + 1) as usize, ..m };
            &&& m.cursor + 1 < m.pending.len() ==> turn == (
                onward,
                RequestView::Perform(m.pending[m.cursor + 1].action),
            )
            &&& m.cursor + 1 == m.pending.len() ==> turn == plan_done(job, onward)
        }),
{
}

/// The state after so many steps in a row were performed well.
pub open spec fn after_steps(job: JobView, m: MachineView, count: nat, catalog: Json) -> (
    MachineView,
    RequestView,
)
    decreases count,
{
    if count == 0 {
        (m, RequestView::Perform(m.pending[m.cursor as int].action))
    } else {
        next(
            job,
            after_steps(job, m, (count - 1) as nat, catalog).0,
            EventView::Performed(Ok(())),
            catalog,
        )
    }
}

/// Every step of a plan is asked for. Where each step is performed well,
/// the engine asks for the steps of the plan in hand one by one, in their
/// order, and changes nothing else of its state meanwhile.
pub proof fn lemma_every_step_is_asked(job: JobView, m: MachineView, count: nat, catalog: Json)
    requires
        performing(m.phase),
        m.cursor + count < m.pending.len() <= usize::MAX,
    ensures
        after_steps(job, m, count, catalog) == (
            MachineView { cursor: (m.cursor + count) as usize, ..m },
            RequestView::Perform(m.pending[m.cursor + count].action),
        ),
    decreases count,
{
    if count > 0 {
        lemma_every_step_is_asked(job, m, (count - 1) as nat, catalog);
        lemma_steps_in_order(
            job,
            MachineView { cursor: (m.cursor + count - 1) as usize, ..m },
            catalog,
        );
    }
}

/// A failure that is ignored does not stop a plan: the next step follows
/// as after a success.
pub proof fn lemma_ignored_failure(job: JobView, m: MachineView, detail: Seq<char>, catalog: Json)
    requires
        performing(m.phase),
        m.cursor < m.pending.len(),
        m.pending[m.cursor as int].failure is Ignored,
    ensures
        next(job, m, EventView::Performed(Err(detail)), catalog) == next(
            job,
            m,
            EventView::Performed(Ok(())),
            catalog,
        ),
{
}

/// Permission fallback, first half. When a step of the direct way fails
/// with an error of missing permission, the engine does not end with that
/// error: it begins the elevated run, or, on a platform without one, ends
/// with the error that there is none.
pub proof fn lemma_permission_fallback(
    job: JobView,
    m: MachineView,
    detail: Seq<char>,
    catalog: Json,
)
    requires
        m.phase == Phase::Patching || m.phase == Phase::WritingManifest,
        m.cursor < m.pending.len(),
        !(m.pending[m.cursor as int].failure is Ignored),
        permission_error(step_error(m.pending, m.cursor, detail, separator_of(job.platform))),
    ensures
        ({
            let turn = next(job, m, EventView::Performed(Err(detail)), catalog);
            &&& turn == begin_escalation(job, m)
            &&& can_escalate(job.platform) ==> turn.1 == (RequestView::MakeTempDir { attempt: 0 })
                && turn.0.phase == Phase::Allocating
            &&& !can_escalate(job.platform) ==> turn.1 == RequestView::Finish(
                Some(keyed("patchBackend.errors.unsupportedPrivilegedFlow"@)),
            )
        }),
{
}

/// Any other failure of a step of the direct way ends the operation with
/// the error of that step.
pub proof fn lemma_other_failures_end(
    job: JobView,
    m: MachineView,
    detail: Seq<char>,
    catalog: Json,
)
    requires
        m.phase == Phase::Patching || m.phase == Phase::WritingManifest,
        m.cursor < m.pending.len(),
        !(m.pending[m.cursor as int].failure is Ignored),
        !permission_error(step_error(m.pending, m.cursor, detail, separator_of(job.platform))),
    ensures
        next(job, m, EventView::Performed(Err(detail)), catalog).1 == RequestView::Finish(
            Some(step_error(m.pending, m.cursor, detail, separator_of(job.platform))),
        ),
{
}

/// Permission fallback, second half. When the helper script, run through
/// the elevation wrapper, fails, the engine has the staging directory
/// removed and then ends with the error of the elevated run, whatever made
/// it begin that run and however the removal went.
pub proof fn lemma_escalation_failure_surfaces(
    job: JobView,
    m: MachineView,
    success: bool,
    stdout: Seq<char>,
    stderr: Seq<char>,
    removal: Result<(), Seq<char>>,
    catalog: Json,
)
    requires
        m.phase == Phase::Elevating,
        job.platform != Platform::MacOs,
        wrapper_verdict(success, stdout, stderr) is Some,
    ensures
        ({
            let failed = next(
                job,
                m,
                EventView::Ran { success, stdout, stderr },
                catalog,
            );
            let ended = next(job, failed.0, EventView::Performed(removal), catalog);
            &&& failed.1 == RequestView::Perform(ActionView::RemoveTree { path: m.temp })
            &&& ended.1 == RequestView::Finish(
                Some(
                    script_failure(
                        wrapper_verdict(success, stdout, stderr)->0,
                        root_text(job, m),
                        job.platform,
                        catalog,
                    ),
                ),
            )
        }),
{
}

/// The same for the terminal session of macOS. A status file that states
/// another exit code than zero, or none, makes the engine remove the
/// staging directory and end with the error of the elevated run; and so
/// does a session that has not finished when its time is over.
pub proof fn lemma_terminal_failure_surfaces(
    job: JobView,
    m: MachineView,
    elapsed_ms: u64,
    file: StatusView,
    removal: Result<(), Seq<char>>,
    catalog: Json,
)
    requires
        m.phase == Phase::Waiting,
        elapsed_ms >= STATUS_TIMEOUT_MS || (file matches StatusView::Content(content)
            && status_verdict(content) is Some),
    ensures
        ({
            let cause = if elapsed_ms >= STATUS_TIMEOUT_MS {
                keyed("patchBackend.errors.terminalNotFinished"@)
            } else {
                status_verdict(file->Content_0)->0
            };
            let failed = next(job, m, EventView::Status { elapsed_ms, file }, catalog);
            let ended = next(job, failed.0, EventView::Performed(removal), catalog);
            &&& failed.1 == RequestView::Perform(ActionView::RemoveTree { path: m.temp })
            &&& ended.1 == RequestView::Finish(
                Some(script_failure(cause, root_text(job, m), job.platform, catalog)),
            )
        }),
{
}

/// The wait for the terminal session is bounded. Before its time is over,
/// a missing status file makes the engine pause for the fixed interval and
/// look again; once the time is over it looks no more.
pub proof fn lemma_wait_is_bounded(
    job: JobView,
    m: MachineView,
    elapsed_ms: u64,
    file: StatusView,
    catalog: Json,
)
    requires
        m.phase == Phase::Waiting,
    ensures
        ({
            let turn = next(job, m, EventView::Status { elapsed_ms, file }, catalog);
            let again = next(job, turn.0, EventView::Resumed, catalog);
            &&& elapsed_ms < STATUS_TIMEOUT_MS && file is Missing ==> turn.1 == (
                RequestView::Pause { millis: STATUS_INTERVAL_MS }
            ) && again.1 == (RequestView::CheckStatus { status: status_path(m) })
            &&& elapsed_ms >= STATUS_TIMEOUT_MS ==> turn.0.phase == Phase::Cleaning
        }),
{
}

/// Checksum sanitization, first half. After the last step of an install
/// that switches a subsystem on, the engine reads the manifest where there
/// is one; and where sanitizing gives a new text, it asks for that text to
/// be written over the manifest, and ends well once that is done.
pub proof fn lemma_checksums_are_sanitized(
    job: JobView,
    m: MachineView,
    content: Seq<char>,
    catalog: Json,
)
    requires
        m.phase == Phase::Patching,
        m.cursor + 1 == m.pending.len() <= usize::MAX,
        m.verdict is None,
        m.sanitize,
        m.facts.manifest,
        sanitized(content) matches Ok(Some(_)),
    ensures
        ({
            let done = next(job, m, EventView::Performed(Ok(())), catalog);
            let read = next(job, done.0, EventView::Text(Ok(content)), catalog);
            let written = next(job, read.0, EventView::Performed(Ok(())), catalog);
            &&& done.1 == RequestView::ReadText(manifest_of(m.root))
            &&& read.1 == RequestView::Perform(
                manifest_step(m.root, sanitized(content)->Ok_0->0).action,
            )
            &&& written.1 == RequestView::Finish(None)
        }),
{
}

/// Checksum sanitization, second half. Where the manifest holds none of the
/// three entries, the engine ends without asking for a write.
pub proof fn lemma_no_manifest_write(
    job: JobView,
    m: MachineView,
    content: Seq<char>,
    catalog: Json,
)
    requires
        m.phase == Phase::ReadingManifest,
        parsed_value(content) is Some,
        !holds_any(parsed_value(content)->0, patched_entries()),
    ensures
        next(job, m, EventView::Text(Ok(content)), catalog) == finish(m, None),
        next(job, m, EventView::Text(Ok(content)), catalog).1 == RequestView::Finish(None),
{
}

/// A reconfiguration where nothing is installed fails with "patch not
/// installed", and all that the engine has asked for until then is what
/// exists: the disk was not changed.
pub proof fn lemma_update_without_install(
    job: JobView,
    answers: Seq<bool>,
    flags: Seq<bool>,
    catalog: Json,
)
    requires
        job.mode == PatchMode::UpdateConfig,
        !installed(facts_of(flags)),
    ensures
        ({
            let asked = first(job);
            let resolved = next(job, asked.0, EventView::Inspected(answers), catalog);
            let ended = next(job, resolved.0, EventView::Inspected(flags), catalog);
            &&& asked.1 is Inspect
            &&& resolved_root(job.input, job.platform, answers) is None ==> resolved.1
                == RequestView::Finish(Some(keyed("patchBackend.errors.invalidInstallDir"@)))
            &&& resolved_root(job.input, job.platform, answers) is Some ==> resolved.1 is Inspect
                && ended.1 == RequestView::Finish(
                Some(keyed("patchBackend.errors.patchNotInstalled"@)),
            )
        }),
{
}

/// The engine performs the plans that the laws of the files speak of. From
/// what a world shows below the resource root, with both directories there,
/// the root in no system-owned place and every probe answered with
/// "writable", an install probes the three directories in order, reads the
/// manifest, and then takes in hand the install plan for that world and the
/// layout that the manifest selects: it asks for the first step of that
/// plan.
pub proof fn lemma_engine_installs(
    job: JobView,
    m: MachineView,
    w: World,
    manifest: Result<Seq<char>, Seq<char>>,
    catalog: Json,
)
    requires
        job.mode == PatchMode::Install,
        m.phase == Phase::Inspecting,
        w.has(extensions_dir_of(m.root)),
        w.has(workbench_dir_of(m.root)),
        !system_owned(root_text(job, m), job.platform),
    ensures
        ({
            let answers = watched_of(m.root).map_values(|p: PathView| w.has(p));
            let seen = next(job, m, EventView::Inspected(answers), catalog);
            let one = next(job, seen.0, EventView::Probed(ProbeView::Writable), catalog);
            let two = next(job, one.0, EventView::Probed(ProbeView::Writable), catalog);
            let three = next(job, two.0, EventView::Probed(ProbeView::Writable), catalog);
            let read = next(job, three.0, EventView::Text(manifest), catalog);
            let steps = install_plan(
                m.root,
                observed(w, m.root),
                variant_of_manifest(
                    match manifest {
                        Ok(content) => Some(content),
                        Err(_) => None,
                    },
                ),
                job.sidebar.enabled,
                job.sidebar.json,
                job.manager.enabled,
                job.manager.json,
                job.bundle,
            ).steps;
            &&& seen.1 == RequestView::Probe(probe_file(extensions_dir_of(m.root)))
            &&& one.1 == RequestView::Probe(probe_file(workbench_dir_of(m.root)))
            &&& two.1 == RequestView::Probe(probe_file(m.root))
            &&& three.1 == RequestView::ReadText(manifest_of(m.root))
            &&& steps.len() > 0 ==> read.0.phase == Phase::Patching && read.0.pending == steps
                && read.0.cursor == 0 && read.0.sanitize == (job.sidebar.enabled
                || job.manager.enabled) && read.1 == RequestView::Perform(steps[0].action)
        }),
{
    lemma_watched_facts(w, m.root);
    let answers = watched_of(m.root).map_values(|p: PathView| w.has(p));
    let facts = observed(w, m.root);
    assert(facts_of(answers) == facts);
    let dirs = seq![extensions_dir_of(m.root), workbench_dir_of(m.root), m.root];
    let seen = MachineView { phase: Phase::Probing, next: 0, facts, dirs, ..m };
    assert(next(job, m, EventView::Inspected(answers), catalog).0 == seen);
    let one = MachineView { next: 1, ..seen };
    assert(next(job, seen, EventView::Probed(ProbeView::Writable), catalog).0 == one);
    let two = MachineView { next: 2, ..seen };
    assert(next(job, one, EventView::Probed(ProbeView::Writable), catalog).0 == two);
    let three = MachineView { phase: Phase::Versioning, ..two };
    assert(next(job, two, EventView::Probed(ProbeView::Writable), catalog).0 == three);
}

/// The same for an uninstall: with the extension's directory there and both
/// probes answered with "writable", the engine takes in hand the steps that
/// restore everything in that world.
pub proof fn lemma_engine_uninstalls(job: JobView, m: MachineView, w: World, catalog: Json)
    requires
        job.mode == PatchMode::Uninstall,
        m.phase == Phase::Inspecting,
        w.has(extensions_dir_of(m.root)),
    ensures
        ({
            let answers = watched_of(m.root).map_values(|p: PathView| w.has(p));
            let seen = next(job, m, EventView::Inspected(answers), catalog);
            let one = next(job, seen.0, EventView::Probed(ProbeView::Writable), catalog);
            let two = next(job, one.0, EventView::Probed(ProbeView::Writable), catalog);
            let steps = uninstall_steps(m.root, observed(w, m.root));
            &&& seen.1 == RequestView::Probe(probe_file(extensions_dir_of(m.root)))
            &&& one.1 == RequestView::Probe(probe_file(workbench_dir_of(m.root)))
            &&& steps.len() > 0 ==> two.0.phase == Phase::Patching && two.0.pending == steps
                && two.0.cursor == 0 && two.1 == RequestView::Perform(steps[0].action)
            &&& steps.len() == 0 ==> two.1 == RequestView::Finish(None)
        }),
{
    lemma_watched_facts(w, m.root);
    let answers = watched_of(m.root).map_values(|p: PathView| w.has(p));
    let facts = observed(w, m.root);
    assert(facts_of(answers) == facts);
    let dirs = seq![extensions_dir_of(m.root), workbench_dir_of(m.root)];
    let seen = MachineView { phase: Phase::Probing, next: 0, facts, dirs, ..m };
    assert(next(job, m, EventView::Inspected(answers), catalog).0 == seen);
    let one = MachineView { next: 1, ..seen };
    assert(next(job, seen, EventView::Probed(ProbeView::Writable), catalog).0 == one);
}

/// The staging directory never outlives the operation. While it exists and
/// its removal has not been asked for, no event makes the engine end: the
/// engine goes on with the elevated run, or asks for the removal of that
/// directory.
pub proof fn lemma_staging_is_removed(job: JobView, m: MachineView, e: EventView, catalog: Json)
    requires
        staged(m.phase),
    ensures
        ({
            let turn = next(job, m, e, catalog);
            &&& !(turn.1 is Finish)
            &&& turn.0.temp == m.temp
            &&& staged(turn.0.phase) || (turn.0.phase == Phase::Cleaning && turn.0.pending
                == cleanup_steps(m.temp) && turn.0.cursor == 0 && turn.1 == RequestView::Perform(
                ActionView::RemoveTree { path: m.temp },
            ))
        }),
{
}

/// Once the removal of the staging directory was asked for, the next event
/// ends the operation; where it reports on the removal, however that went,
/// the end is the outcome of the elevated run.
pub proof fn lemma_cleaning_ends(job: JobView, m: MachineView, e: EventView, catalog: Json)
    requires
        m.phase == Phase::Cleaning,
        m.pending == cleanup_steps(m.temp),
        m.cursor == 0,
    ensures
        next(job, m, e, catalog).1 is Finish,
        next(job, m, e, catalog).0.phase == Phase::Done,
        e is Performed ==> next(job, m, e, catalog).1 == RequestView::Finish(m.outcome),
{
}

/// Nothing is retried more than once. From the elevated run no event leads
/// back to the direct way, and none begins a second elevated run.
pub proof fn lemma_escalates_once(job: JobView, m: MachineView, e: EventView, catalog: Json)
    requires
        m.phase == Phase::Allocating || staged(m.phase) || m.phase == Phase::Cleaning,
    ensures
        ({
            let after = next(job, m, e, catalog).0.phase;
            after == Phase::Done || after == Phase::Cleaning || staged(after) || (after
                == Phase::Allocating && m.phase == Phase::Allocating && next(
                job,
                m,
                e,
                catalog,
            ).0.attempt == m.attempt + 1)
        }),
{
}

/// The paths asked of the candidate at a position stand at three times
/// that position among the paths asked of all.
pub proof fn lemma_queries_at(candidates: Seq<PathView>, i: int)
    requires
        0 <= i < candidates.len(),
    ensures
        root_queries_of(candidates).len() == 3 * candidates.len(),
        root_queries_of(candidates)[3 * i] == candidate_queries(candidates[i])[0],
        root_queries_of(candidates)[3 * i + 1] == candidate_queries(candidates[i])[1],
        root_queries_of(candidates)[3 * i + 2] == candidate_queries(candidates[i])[2],
    decreases candidates.len(),
{
    lemma_queries_len(candidates.drop_last());
    if i < candidates.len() - 1 {
        lemma_queries_at(candidates.drop_last(), i);
        assert(candidates.drop_last()[i] == candidates[i]);
    }
}

/// Three paths are asked of each candidate.
pub proof fn lemma_queries_len(candidates: Seq<PathView>)
    ensures
        root_queries_of(candidates).len() == 3 * candidates.len(),
    decreases candidates.len(),
{
    if candidates.len() > 0 {
        lemma_queries_len(candidates.drop_last());
    }
}

/// The resource root that the engine resolves is a valid one. Answered by a
/// world, the engine picks a root below which the marker file exists in
/// that world.
pub proof fn lemma_resolved_root_is_valid(w: World, input: PathView, platform: Platform)
    ensures
        ({
            let answers = root_queries_of(candidates_of(input)).map_values(|p: PathView| w.has(p));
            resolved_root(input, platform, answers) is Some ==> w.has(
                marker_of(resolved_root(input, platform, answers)->0),
            )
        }),
{
    let candidates = candidates_of(input);
    let queries = root_queries_of(candidates);
    let answers = queries.map_values(|p: PathView| w.has(p));
    let facts = root_facts_of(answers, candidates.len() as int);
    if resolved_root(input, platform, answers) is Some {
        lemma_first_valid(platform, facts, candidates.len() as int, 0);
        let i = first_valid(platform, facts, candidates.len() as int, 0)->0;
        lemma_queries_at(candidates, i);
        assert(answers[3 * i] == w.has(queries[3 * i]));
        assert(answers[3 * i + 1] == w.has(queries[3 * i + 1]));
        assert(answers[3 * i + 2] == w.has(queries[3 * i + 2]));
    }
}

/// The first valid position is a position of a candidate that is valid.
pub proof fn lemma_first_valid(platform: Platform, facts: Seq<RootFacts>, count: int, from: int)
    requires
        0 <= from,
    ensures
        first_valid(platform, facts, count, from) matches Some(i) ==> from <= i < count && i
            < facts.len() && valid_root(platform, facts[i]),
    decreases count - from,
{
    if from < count && !(from < facts.len() && valid_root(platform, facts[from])) {
        lemma_first_valid(platform, facts, count, from + 1);
    }
}

} // verus!
