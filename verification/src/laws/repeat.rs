//! Why deploying a subsystem a second time changes nothing of it.

use crate::laws::blocks::lemma_block_owned;
use crate::laws::effects::{all_build, builds, lemma_deploy_effect, lemma_files_build,
    lemma_run_none, lemma_run_one, lemma_run_push, lemma_site_apart, lemma_spares_backup};
use crate::laws::site::{lemma_names_differ, lemma_shapes, site_equal};
use crate::layout::{SiteFacts, Subsystem};
use crate::paths::PathView;
use crate::plan::{lemma_run_concat, lemma_run_frame, ActionView, Node, StepView, World};
use vstd::prelude::*;
use vstd::utf8::encode_utf8;

verus! {

impl World {
    /// Whether nothing exists at a path or below it.
    pub open spec fn hollow(self, dir: PathView) -> bool {
        forall|q: PathView| q.within(dir) ==> !self.has(q)
    }
}

/// In a world where every path lies in a directory that exists, nothing
/// lies below a directory that does not exist.
pub proof fn lemma_closed_hollow(w: World, dir: PathView)
    requires
        w.closed(),
        !w.has(dir),
    ensures
        w.hollow(dir),
{
    assert forall|q: PathView| q.within(dir) implies !w.has(q) by {
        lemma_nothing_below(w, dir, q);
    }
}

/// One path of the lemma above.
proof fn lemma_nothing_below(w: World, dir: PathView, q: PathView)
    requires
        w.closed(),
        !w.has(dir),
        q.within(dir),
    ensures
        !w.has(q),
    decreases q.names.len(),
{
    if w.has(q) {
        if q.names.len() == dir.names.len() {
            assert(q.names.take(dir.names.len() as int) =~= q.names);
            assert(q == dir);
        } else {
            let up = q.cut(q.names.len() - 1);
            assert(w.has(up));
            assert(up.names.take(dir.names.len() as int) =~= q.names.take(dir.names.len() as int));
            lemma_nothing_below(w, dir, up);
        }
    }
}

/// What an action other than a copy leaves at a path depends only on what
/// was at that path.
pub proof fn lemma_pointwise(a: ActionView, u: World, v: World, p: PathView)
    requires
        !(a is CopyFile),
        u.at(p) == v.at(p),
    ensures
        u.apply(a).at(p) == v.apply(a).at(p),
{
}

/// The same for a list of steps.
pub proof fn lemma_pointwise_run(steps: Seq<StepView>, u: World, v: World, p: PathView)
    requires
        forall|i: int| 0 <= i < steps.len() ==> !((#[trigger] steps[i]).action is CopyFile),
        u.at(p) == v.at(p),
    ensures
        u.run(steps).at(p) == v.run(steps).at(p),
    decreases steps.len(),
{
    if steps.len() > 0 {
        assert forall|i: int| 0 <= i < steps.drop_last().len() implies !((
        #[trigger] steps.drop_last()[i]).action is CopyFile) by {
            assert(steps.drop_last()[i] == steps[i]);
        }
        lemma_pointwise_run(steps.drop_last(), u, v, p);
        assert(!(steps[steps.len() - 1].action is CopyFile));
        lemma_pointwise(steps.last().action, u.run(steps.drop_last()), v.run(steps.drop_last()), p);
    }
}

/// What the last write to a path among some steps leaves there, if any of
/// them writes there.
pub open spec fn written(steps: Seq<StepView>, p: PathView) -> Option<Node>
    decreases steps.len(),
{
    if steps.len() == 0 {
        None
    } else {
        match steps.last().action {
            ActionView::WriteText { path, content } => if path == p {
                Some(Node::File(encode_utf8(content)))
            } else {
                written(steps.drop_last(), p)
            },
            _ => written(steps.drop_last(), p),
        }
    }
}

/// Where steps touch a path only by writing it, the path holds the last
/// write, or what it held before.
pub proof fn lemma_last_write(steps: Seq<StepView>, u: World, p: PathView)
    requires
        forall|i: int|
            0 <= i < steps.len() ==> (#[trigger] steps[i]).action is WriteText
                || !steps[i].action.touches(p),
    ensures
        u.run(steps).at(p) == (match written(steps, p) {
            Some(n) => Some(n),
            None => u.at(p),
        }),
    decreases steps.len(),
{
    if steps.len() > 0 {
        assert forall|i: int| 0 <= i < steps.drop_last().len() implies (
        #[trigger] steps.drop_last()[i]).action is WriteText || !steps.drop_last()[i].action.touches(
            p,
        ) by {
            assert(steps.drop_last()[i] == steps[i]);
        }
        lemma_last_write(steps.drop_last(), u, p);
        let a = steps[steps.len() - 1].action;
        assert(a is WriteText || !a.touches(p));
    }
}

/// The steps that fill the directory of a subsystem touch its entry file
/// only by writing it.
pub proof fn lemma_body_writes_entry(s: Subsystem, root: PathView, steps: Seq<StepView>)
    requires
        s.owns_all(root, steps),
        all_build(steps),
    ensures
        forall|i: int|
            0 <= i < steps.len() ==> (#[trigger] steps[i]).action is WriteText
                || !steps[i].action.touches(s.entry_of(root)),
{
    lemma_site_apart(s, root);
    lemma_shapes(s, root);
    lemma_names_differ();
    let entry = s.entry_of(root);
    let lead = root.names + s.base_tail();
    let k = lead.len() as int;
    assert forall|i: int| 0 <= i < steps.len() implies (#[trigger] steps[i]).action is WriteText
        || !steps[i].action.touches(entry) by {
        let a = steps[i].action;
        assert(s.owns(root, a));
        assert(builds(a));
        match a {
            ActionView::MakeDirs { path } => {
                if path.within(entry) {
                    if path != s.base_of(root) {
                        assert(path.names.take(k + 1) == s.panel_of(root).names);
                        assert(path.names[k] == path.names.take(k + 1)[k]);
                        assert(path.names.take(k + 1) =~= path.names.take(
                            entry.names.len() as int,
                        ));
                        assert(entry.names[k] == s.entry_name());
                        assert(s.panel_of(root).names[k] == s.panel_name());
                    }
                }
            },
            _ => {},
        }
    }
}

/// What clearing and making the directory of a subsystem leaves in it: the
/// directory, and nothing else.
pub proof fn lemma_opened(s: Subsystem, root: PathView, w: World, facts: SiteFacts, p: PathView)
    requires
        p.within(s.panel_of(root)),
        facts.panel || w.hollow(s.panel_of(root)),
        facts.panel == w.has(s.panel_of(root)),
    ensures
        w.run(s.open_steps(root, facts)).at(p) == (if p == s.panel_of(root) {
            Some(Node::Dir)
        } else {
            None::<Node>
        }),
{
    let panel = s.panel_of(root);
    let open = s.open_steps(root, facts);
    if panel.within(p) {
        assert(p.names.take(panel.names.len() as int) == panel.names);
        assert(panel.names.take(p.names.len() as int) == p.names);
        assert(p.names =~= panel.names);
    }
    if facts.panel {
        assert(open =~= seq![open[0]].push(open[1]));
        lemma_run_push(w, seq![open[0]], open[1]);
        lemma_run_one(w, open[0]);
    } else {
        assert(open =~= seq![open[0]]);
        lemma_run_one(w, open[0]);
        assert(!w.has(p));
    }
}

/// Deploying one subsystem twice leaves of it what deploying it once left,
/// where the entry file was a file or had a backup, and the directory of
/// patch files was there or nothing lay below its place.
pub proof fn lemma_redeploy(
    s: Subsystem,
    root: PathView,
    w: World,
    files: Seq<(Seq<char>, Seq<char>)>,
    json: Seq<char>,
)
    requires
        w.is_file(s.entry_of(root)) || w.has(s.backup_of(root)),
        w.has(s.panel_of(root)) || w.hollow(s.panel_of(root)),
    ensures
        ({
            let once = w.run(s.deploy_steps(root, s.observed(w, root), files, json));
            let twice = once.run(s.deploy_steps(root, s.observed(once, root), files, json));
            site_equal(twice, once, s, root)
        }),
{
    lemma_site_apart(s, root);
    let entry = s.entry_of(root);
    let backup = s.backup_of(root);
    let panel = s.panel_of(root);
    let facts = s.observed(w, root);
    let save = s.backup_steps(root, facts);
    let open = s.open_steps(root, facts);
    let body = s.files_steps(root, files).push(s.config_step(root, json));
    let once = w.run(s.deploy_steps(root, facts, files, json));
    let again = s.observed(once, root);
    let open2 = s.open_steps(root, again);
    let twice = once.run(s.deploy_steps(root, again, files, json));
    lemma_deploy_effect(s, root, w, files, json);
    lemma_block_owned(s, root, facts, true, files, json);
    lemma_block_owned(s, root, again, true, files, json);
    lemma_files_build(s, root, files);
    assert(all_build(body)) by {
        assert forall|i: int| 0 <= i < body.len() implies builds((#[trigger] body[i]).action) by {
            if i < body.len() - 1 {
                assert(body[i] == s.files_steps(root, files)[i]);
            }
        }
    }
    // the first run, step by step
    assert(s.deploy_steps(root, facts, files, json) =~= save + (open + body));
    lemma_run_concat(w, save, open + body);
    lemma_run_concat(w.run(save), open, body);
    let saved = w.run(save);
    let opened = saved.run(open);
    assert(once == opened.run(body));
    if facts.entry && !facts.backup {
        lemma_run_one(w, save[0]);
    } else {
        lemma_run_none(w);
    }
    // the second run: the backup is there, so nothing is saved again
    assert(once.has(backup));
    assert(once.has(panel));
    assert(s.backup_steps(root, again) =~= Seq::<StepView>::empty());
    assert(s.deploy_steps(root, again, files, json) =~= open2 + body);
    lemma_run_concat(once, open2, body);
    let opened2 = once.run(open2);
    assert(twice == opened2.run(body));
    assert forall|i: int| 0 <= i < body.len() implies !((#[trigger] body[i]).action is CopyFile) by {
        assert(builds(body[i].action));
    }
    lemma_body_writes_entry(s, root, body);
    assert forall|p: PathView| #[trigger] s.site(root, p) implies twice.at(p) == once.at(p) by {
        if p == backup {
            assert forall|i: int| 0 <= i < (open2 + body).len() implies builds(
                (#[trigger] (open2 + body)[i]).action,
            ) || (open2 + body)[i].action is RemoveTree by {
                if i < open2.len() {
                    assert((open2 + body)[i] == open2[i]);
                } else {
                    assert((open2 + body)[i] == body[i - open2.len()]);
                }
            }
            assert(s.owns_all(root, open2 + body)) by {
                assert forall|i: int| 0 <= i < (open2 + body).len() implies s.owns(
                    root,
                    (#[trigger] (open2 + body)[i]).action,
                ) by {
                    if i < open2.len() {
                        assert((open2 + body)[i] == open2[i]);
                    } else {
                        assert((open2 + body)[i] == body[i - open2.len()]);
                    }
                }
            }
            lemma_spares_backup(s, root, open2 + body, once);
        } else if p == entry {
            assert forall|i: int| 0 <= i < open.len() implies !(#[trigger] open[i]).action.touches(
                entry,
            ) by {}
            assert forall|i: int| 0 <= i < open2.len() implies !(
            #[trigger] open2[i]).action.touches(entry) by {}
            lemma_run_frame(saved, open, entry);
            lemma_run_frame(once, open2, entry);
            lemma_last_write(body, opened, entry);
            lemma_last_write(body, opened2, entry);
        } else {
            assert(saved.has(panel) == w.has(panel));
            assert(saved.has(panel) || saved.hollow(panel)) by {
                if !w.has(panel) {
                    assert forall|q: PathView| q.within(panel) implies !saved.has(q) by {
                        assert(!w.has(q));
                    }
                }
            }
            lemma_opened(s, root, saved, facts, p);
            lemma_opened(s, root, once, again, p);
            lemma_pointwise_run(body, opened, opened2, p);
        }
    }
}

} // verus!
