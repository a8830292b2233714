//! What the block of a subsystem does to the files of that subsystem.

use crate::laws::blocks::lemma_block_owned;
use crate::laws::outside::makes;
use crate::laws::repeat::{lemma_body_writes_entry, lemma_opened, written};
use crate::laws::site::{lemma_names_differ, lemma_shapes};
use crate::layout::Subsystem;
use crate::paths::PathView;
use crate::plan::{lemma_run_concat, lemma_run_frame, ActionView, Node, StepView, World};
use vstd::prelude::*;
use vstd::utf8::encode_utf8;

verus! {

/// Running no steps changes nothing.
pub proof fn lemma_run_none(w: World)
    ensures
        w.run(Seq::empty()) == w,
{
}

/// Running one step applies its action.
pub proof fn lemma_run_one(w: World, a: StepView)
    ensures
        w.run(seq![a]) == w.apply(a.action),
{
    assert(seq![a].drop_last() =~= Seq::<StepView>::empty());
    lemma_run_none(w);
}

/// Running steps and one more applies the last to what the others left.
pub proof fn lemma_run_push(w: World, steps: Seq<StepView>, a: StepView)
    ensures
        w.run(steps.push(a)) == w.run(steps).apply(a.action),
{
    assert(steps.push(a).drop_last() =~= steps);
}

/// Whether an action only adds or overwrites.
pub open spec fn builds(a: ActionView) -> bool {
    a is MakeDirs || a is WriteText
}

/// Whether every step of a list only adds or overwrites.
pub open spec fn all_build(steps: Seq<StepView>) -> bool {
    forall|i: int| 0 <= i < steps.len() ==> builds((#[trigger] steps[i]).action)
}

/// Steps that only add or overwrite leave in place whatever exists.
pub proof fn lemma_building_keeps(w: World, steps: Seq<StepView>, p: PathView)
    requires
        all_build(steps),
        w.has(p),
    ensures
        w.run(steps).has(p),
    decreases steps.len(),
{
    if steps.len() > 0 {
        assert(all_build(steps.drop_last())) by {
            assert forall|i: int| 0 <= i < steps.drop_last().len() implies builds(
                (#[trigger] steps.drop_last()[i]).action,
            ) by {
                assert(steps.drop_last()[i] == steps[i]);
            }
        }
        lemma_building_keeps(w, steps.drop_last(), p);
        assert(builds(steps[steps.len() - 1].action));
    }
}

/// The steps that write the files of a subsystem only add or overwrite.
pub proof fn lemma_files_build(s: Subsystem, root: PathView, files: Seq<(Seq<char>, Seq<char>)>)
    ensures
        all_build(s.files_steps(root, files)),
    decreases files.len(),
{
    if files.len() > 0 {
        lemma_files_build(s, root, files.drop_last());
        if s.keeps(files.last().0) {
            let before = s.files_steps(root, files.drop_last());
            let more = s.file_steps(root, files.last().0, files.last().1);
            assert forall|i: int| 0 <= i < (before + more).len() implies builds(
                (#[trigger] (before + more)[i]).action,
            ) by {
                if i < before.len() {
                    assert((before + more)[i] == before[i]);
                } else {
                    assert((before + more)[i] == more[i - before.len()]);
                }
            }
        }
    }
}

/// Entry file, backup and directory of one subsystem are three different
/// paths, and neither file lies in the directory.
pub proof fn lemma_site_apart(s: Subsystem, root: PathView)
    ensures
        s.entry_of(root) != s.backup_of(root),
        s.entry_of(root) != s.panel_of(root),
        s.backup_of(root) != s.panel_of(root),
        !s.entry_of(root).within(s.panel_of(root)),
        !s.backup_of(root).within(s.panel_of(root)),
        s.panel_of(root).within(s.panel_of(root)),
        s.config_of(root).within(s.panel_of(root)),
        !s.panel_of(root).within(s.config_of(root)),
        !s.panel_of(root).within(s.entry_of(root)),
        !s.panel_of(root).within(s.backup_of(root)),
{
    lemma_names_differ();
    lemma_shapes(s, root);
    let lead = root.names + s.base_tail();
    let k = lead.len() as int;
    assert(s.entry_of(root).names[k] == s.entry_name());
    assert(s.backup_of(root).names[k] == s.backup_name());
    assert(s.panel_of(root).names[k] == s.panel_name());
    assert(s.panel_of(root).names.take(k + 1) =~= s.panel_of(root).names);
    assert(s.entry_of(root).names.take(k + 1) =~= s.entry_of(root).names);
    assert(s.backup_of(root).names.take(k + 1) =~= s.backup_of(root).names);
    assert(s.config_of(root).names.take(k + 1) =~= s.panel_of(root).names);
}

/// The steps after the backup leave the backup alone.
pub proof fn lemma_spares_backup(s: Subsystem, root: PathView, steps: Seq<StepView>, w: World)
    requires
        s.owns_all(root, steps),
        forall|i: int|
            0 <= i < steps.len() ==> builds((#[trigger] steps[i]).action) || steps[i].action
                is RemoveTree,
    ensures
        w.run(steps).at(s.backup_of(root)) == w.at(s.backup_of(root)),
{
    lemma_site_apart(s, root);
    lemma_shapes(s, root);
    lemma_names_differ();
    let backup = s.backup_of(root);
    let lead = root.names + s.base_tail();
    let k = lead.len() as int;
    assert forall|i: int| 0 <= i < steps.len() implies !(#[trigger] steps[i]).action.touches(
        backup,
    ) by {
        let a = steps[i].action;
        assert(s.owns(root, a));
        assert(builds(a) || a is RemoveTree);
        match a {
            ActionView::MakeDirs { path } => {
                if path.within(backup) {
                    if path != s.base_of(root) {
                        assert(path.names.take(k + 1) == s.panel_of(root).names);
                        assert(path.names[k] == path.names.take(k + 1)[k]);
                        assert(path.names.take(k + 1) =~= path.names.take(
                            backup.names.len() as int,
                        ));
                        assert(backup.names[k] == s.backup_name());
                        assert(s.panel_of(root).names[k] == s.panel_name());
                    }
                }
            },
            ActionView::WriteText { path, content } => {
                if path == backup {
                    assert(backup.within(s.panel_of(root)));
                }
            },
            _ => {},
        }
    }
    lemma_run_frame(w, steps, backup);
}

/// What restoring a subsystem leaves of it: the entry file holds what the
/// backup held, and neither the backup nor the directory of patch files is
/// there any more.
pub proof fn lemma_restore_effect(s: Subsystem, root: PathView, w: World)
    ensures
        ({
            let after = w.run(s.restore_steps(root, s.observed(w, root)));
            &&& !after.has(s.backup_of(root))
            &&& !after.has(s.panel_of(root))
            &&& after.at(s.entry_of(root)) == (if w.is_file(s.backup_of(root)) {
                w.at(s.backup_of(root))
            } else {
                w.at(s.entry_of(root))
            })
            &&& forall|p: PathView|
                p.within(s.panel_of(root)) && w.has(s.panel_of(root)) ==> !after.has(p)
        }),
{
    lemma_site_apart(s, root);
    let facts = s.observed(w, root);
    let steps = s.restore_steps(root, facts);
    let entry = s.entry_of(root);
    let backup = s.backup_of(root);
    let panel = s.panel_of(root);
    let file = if facts.backup {
        seq![steps[0], steps[1]]
    } else {
        Seq::<StepView>::empty()
    };
    let dir = if facts.panel {
        seq![steps[steps.len() - 1]]
    } else {
        Seq::<StepView>::empty()
    };
    assert(steps =~= file + dir);
    lemma_run_concat(w, file, dir);
    let mid = w.run(file);
    if facts.backup {
        assert(file =~= seq![steps[0]].push(steps[1]));
        lemma_run_push(w, seq![steps[0]], steps[1]);
        lemma_run_one(w, steps[0]);
    } else {
        lemma_run_none(w);
    }
    assert(!mid.has(backup));
    assert(mid.has(panel) == w.has(panel));
    assert(mid.at(entry) == (if w.is_file(backup) {
        w.at(backup)
    } else {
        w.at(entry)
    }));
    if facts.panel {
        lemma_run_one(mid, dir[0]);
    } else {
        lemma_run_none(mid);
    }
}

/// What deploying a subsystem leaves of it: a backup of the entry file
/// where there was a file and no backup, the old backup otherwise; the
/// directory of patch files; and in it the configuration.
pub proof fn lemma_deploy_effect(
    s: Subsystem,
    root: PathView,
    w: World,
    files: Seq<(Seq<char>, Seq<char>)>,
    json: Seq<char>,
)
    ensures
        ({
            let after = w.run(s.deploy_steps(root, s.observed(w, root), files, json));
            &&& after.at(s.backup_of(root)) == (if w.is_file(s.entry_of(root)) && !w.has(
                s.backup_of(root),
            ) {
                w.at(s.entry_of(root))
            } else {
                w.at(s.backup_of(root))
            })
            &&& after.has(s.panel_of(root))
            &&& after.at(s.config_of(root)) == Some(Node::File(encode_utf8(json)))
        }),
{
    lemma_site_apart(s, root);
    let facts = s.observed(w, root);
    let save = s.backup_steps(root, facts);
    let open = s.open_steps(root, facts);
    let body = s.files_steps(root, files);
    let config = s.config_step(root, json);
    let backup = s.backup_of(root);
    let panel = s.panel_of(root);
    lemma_block_owned(s, root, facts, true, files, json);
    assert(s.deploy_steps(root, facts, files, json) =~= save + (open + body.push(config)));
    lemma_run_concat(w, save, open + body.push(config));
    let saved = w.run(save);
    if facts.entry && !facts.backup {
        lemma_run_one(w, save[0]);
    } else {
        lemma_run_none(w);
    }
    lemma_run_concat(saved, open, body.push(config));
    let opened = saved.run(open);
    lemma_spares_backup(s, root, open, saved);
    assert(opened.has(panel)) by {
        assert(open.last().action == ActionView::MakeDirs { path: panel });
        assert(open =~= open.drop_last().push(open.last()));
        lemma_run_push(saved, open.drop_last(), open.last());
    }
    lemma_files_build(s, root, files);
    assert(all_build(body.push(config))) by {
        assert forall|i: int| 0 <= i < body.push(config).len() implies builds(
            (#[trigger] body.push(config)[i]).action,
        ) by {
            if i < body.len() {
                assert(body.push(config)[i] == body[i]);
            }
        }
    }
    lemma_spares_backup(s, root, body.push(config), opened);
    lemma_building_keeps(opened, body.push(config), panel);
    lemma_run_push(opened, body, config);
}

impl Subsystem {
    /// The content that a bundle brings to a path: that of the last of its
    /// files kept by this subsystem whose place the path is.
    pub open spec fn brought(
        self,
        root: PathView,
        files: Seq<(Seq<char>, Seq<char>)>,
        p: PathView,
    ) -> Option<Seq<char>>
        decreases files.len(),
    {
        if files.len() == 0 {
            None
        } else if self.keeps(files.last().0) && self.place_of(root, files.last().0) == p {
            Some(files.last().1)
        } else {
            self.brought(root, files.drop_last(), p)
        }
    }

    /// Whether a path is, or lies above, the directory of a file that the
    /// bundle brings.
    pub open spec fn covers(
        self,
        root: PathView,
        files: Seq<(Seq<char>, Seq<char>)>,
        p: PathView,
    ) -> bool {
        exists|i: int|
            0 <= i < files.len() && self.keeps((#[trigger] files[i]).0) && self.place_of(
                root,
                files[i].0,
            ).above().within(p)
    }

    /// What a deploy leaves at a path in the directory of patch files: the
    /// configuration at its place; each file that the bundle brings, with
    /// its content, at its place; a directory where the directory of patch
    /// files is and where a brought file needs one; and nothing anywhere
    /// else.
    pub open spec fn deployed_at(
        self,
        root: PathView,
        files: Seq<(Seq<char>, Seq<char>)>,
        json: Seq<char>,
        p: PathView,
    ) -> Option<Node> {
        if p == self.config_of(root) {
            Some(Node::File(encode_utf8(json)))
        } else if self.brought(root, files, p) is Some {
            Some(Node::File(encode_utf8(self.brought(root, files, p)->0)))
        } else if p == self.panel_of(root) || self.covers(root, files, p) {
            Some(Node::Dir)
        } else {
            None
        }
    }
}

/// What steps that only add or overwrite leave at a path: the last write
/// to it; else what was there; else a directory where one of them made it;
/// else nothing.
pub proof fn lemma_building_leaves(w: World, steps: Seq<StepView>, p: PathView)
    requires
        all_build(steps),
    ensures
        w.run(steps).at(p) == (match written(steps, p) {
            Some(n) => Some(n),
            None => if w.has(p) {
                w.at(p)
            } else if makes(steps, p) {
                Some(Node::Dir)
            } else {
                None
            },
        }),
    decreases steps.len(),
{
    if steps.len() > 0 {
        let init = steps.drop_last();
        assert(all_build(init)) by {
            assert forall|i: int| 0 <= i < init.len() implies builds((#[trigger] init[i]).action) by {
                assert(init[i] == steps[i]);
            }
        }
        lemma_building_leaves(w, init, p);
        let a = steps[steps.len() - 1].action;
        assert(builds(a));
        if makes(init, p) {
            let i = choose|i: int|
                0 <= i < init.len() && (#[trigger] init[i]).action is MakeDirs
                    && init[i].action.touches(p);
            assert(steps[i] == init[i]);
        }
        if makes(steps, p) && !makes(init, p) {
            let i = choose|i: int|
                0 <= i < steps.len() && (#[trigger] steps[i]).action is MakeDirs
                    && steps[i].action.touches(p);
            if i < init.len() {
                assert(init[i] == steps[i]);
            }
        }
    }
}

/// The last write of two lists of steps in a row is that of the second,
/// else that of the first.
pub proof fn lemma_written_concat(a: Seq<StepView>, b: Seq<StepView>, p: PathView)
    ensures
        written(a + b, p) == (match written(b, p) {
            Some(n) => Some(n),
            None => written(a, p),
        }),
    decreases b.len(),
{
    if b.len() == 0 {
        assert(a + b =~= a);
    } else {
        lemma_written_concat(a, b.drop_last(), p);
        assert((a + b).drop_last() =~= a + b.drop_last());
        assert((a + b).last() == b.last());
    }
}

/// Two lists of steps in a row make a directory just when one of them does.
pub proof fn lemma_makes_concat(a: Seq<StepView>, b: Seq<StepView>, p: PathView)
    ensures
        makes(a + b, p) <==> makes(a, p) || makes(b, p),
{
    crate::laws::outside::lemma_makes_three(a, b, Seq::empty(), p);
    assert(a + b + Seq::<StepView>::empty() =~= a + b);
    assert(!makes(Seq::<StepView>::empty(), p));
}

/// What the steps that write one file write and make.
pub proof fn lemma_one_file(
    s: Subsystem,
    root: PathView,
    rel: Seq<char>,
    content: Seq<char>,
    p: PathView,
)
    ensures
        written(s.file_steps(root, rel, content), p) == (if s.place_of(root, rel) == p {
            Some(Node::File(encode_utf8(content)))
        } else {
            None::<Node>
        }),
        makes(s.file_steps(root, rel, content), p) <==> s.place_of(root, rel).above().within(p),
{
    let steps = s.file_steps(root, rel, content);
    let one = steps.drop_last();
    assert(one =~= seq![steps[0]]);
    assert(one.drop_last() =~= Seq::<StepView>::empty());
    assert(written(one.drop_last(), p) is None);
    assert(written(one, p) is None);
    assert(steps.last() == steps[1]);
    if s.place_of(root, rel).above().within(p) {
        assert(steps[0].action is MakeDirs && steps[0].action.touches(p));
    }
    if makes(steps, p) {
        let i = choose|i: int|
            0 <= i < steps.len() && (#[trigger] steps[i]).action is MakeDirs
                && steps[i].action.touches(p);
        assert(i == 0);
    }
}

/// What a single write writes and makes.
pub proof fn lemma_one_write(step: StepView, p: PathView)
    requires
        step.action is WriteText,
    ensures
        written(seq![step], p) == (if step.action.target() == p {
            Some(Node::File(encode_utf8(step.action->WriteText_content)))
        } else {
            None::<Node>
        }),
        !makes(seq![step], p),
{
    assert(seq![step].drop_last() =~= Seq::<StepView>::empty());
    assert(written(seq![step].drop_last(), p) is None);
    assert(seq![step].last() == step);
}

/// The last write that the files of a bundle make to a path is the content
/// that the bundle brings there; and they make the directories that the
/// brought files need.
pub proof fn lemma_files_leave(
    s: Subsystem,
    root: PathView,
    files: Seq<(Seq<char>, Seq<char>)>,
    p: PathView,
)
    ensures
        written(s.files_steps(root, files), p) == (match s.brought(root, files, p) {
            Some(content) => Some(Node::File(encode_utf8(content))),
            None => None::<Node>,
        }),
        makes(s.files_steps(root, files), p) <==> s.covers(root, files, p),
    decreases files.len(),
{
    if files.len() > 0 {
        let init = files.drop_last();
        let last = files.last();
        lemma_files_leave(s, root, init, p);
        if s.covers(root, init, p) {
            let i = choose|i: int|
                0 <= i < init.len() && s.keeps((#[trigger] init[i]).0) && s.place_of(
                    root,
                    init[i].0,
                ).above().within(p);
            assert(files[i] == init[i]);
        }
        if s.covers(root, files, p) && !s.covers(root, init, p) {
            let i = choose|i: int|
                0 <= i < files.len() && s.keeps((#[trigger] files[i]).0) && s.place_of(
                    root,
                    files[i].0,
                ).above().within(p);
            if i < init.len() {
                assert(init[i] == files[i]);
            }
        }
        if s.keeps(last.0) {
            let before = s.files_steps(root, init);
            let more = s.file_steps(root, last.0, last.1);
            lemma_written_concat(before, more, p);
            lemma_makes_concat(before, more, p);
            lemma_one_file(s, root, last.0, last.1, p);
            if s.place_of(root, last.0).above().within(p) {
                assert(s.keeps(files[files.len() - 1].0));
            }
        }
    }
}

/// What a deploy leaves, file by file. In the directory of patch files
/// there is the configuration, each file that the bundle brings with its
/// content at its place, the directories that these need, and nothing
/// else. It is stated for a directory that was there, or below whose place
/// nothing lay.
pub proof fn lemma_deploy_leaves(
    s: Subsystem,
    root: PathView,
    w: World,
    files: Seq<(Seq<char>, Seq<char>)>,
    json: Seq<char>,
    p: PathView,
)
    requires
        p.within(s.panel_of(root)),
        w.has(s.panel_of(root)) || w.hollow(s.panel_of(root)),
    ensures
        w.run(s.deploy_steps(root, s.observed(w, root), files, json)).at(p) == s.deployed_at(
            root,
            files,
            json,
            p,
        ),
{
    lemma_site_apart(s, root);
    let facts = s.observed(w, root);
    let panel = s.panel_of(root);
    let save = s.backup_steps(root, facts);
    let open = s.open_steps(root, facts);
    let kept = s.files_steps(root, files);
    let config = s.config_step(root, json);
    let body = kept.push(config);
    assert(s.deploy_steps(root, facts, files, json) =~= save + (open + body));
    lemma_run_concat(w, save, open + body);
    lemma_run_concat(w.run(save), open, body);
    let saved = w.run(save);
    if facts.entry && !facts.backup {
        lemma_run_one(w, save[0]);
    } else {
        lemma_run_none(w);
    }
    assert(saved.has(panel) == w.has(panel));
    assert(saved.has(panel) || saved.hollow(panel)) by {
        if !w.has(panel) {
            assert forall|q: PathView| q.within(panel) implies !saved.has(q) by {
                assert(!w.has(q));
            }
        }
    }
    lemma_opened(s, root, saved, facts, p);
    let opened = saved.run(open);
    lemma_files_build(s, root, files);
    assert(all_build(body)) by {
        assert forall|i: int| 0 <= i < body.len() implies builds((#[trigger] body[i]).action) by {
            if i < kept.len() {
                assert(body[i] == kept[i]);
            }
        }
    }
    lemma_building_leaves(opened, body, p);
    lemma_files_leave(s, root, files, p);
    assert(body =~= kept + seq![config]);
    lemma_written_concat(kept, seq![config], p);
    lemma_makes_concat(kept, seq![config], p);
    lemma_one_write(config, p);
}

/// What a deploy leaves of the entry file: the content that the bundle
/// brings for it, or, where it brings none, what was there.
pub proof fn lemma_deploy_leaves_entry(
    s: Subsystem,
    root: PathView,
    w: World,
    files: Seq<(Seq<char>, Seq<char>)>,
    json: Seq<char>,
)
    ensures
        w.run(s.deploy_steps(root, s.observed(w, root), files, json)).at(s.entry_of(root)) == (
        match s.brought(root, files, s.entry_of(root)) {
            Some(content) => Some(Node::File(encode_utf8(content))),
            None => w.at(s.entry_of(root)),
        }),
{
    lemma_site_apart(s, root);
    let facts = s.observed(w, root);
    let entry = s.entry_of(root);
    let save = s.backup_steps(root, facts);
    let open = s.open_steps(root, facts);
    let kept = s.files_steps(root, files);
    let config = s.config_step(root, json);
    let body = kept.push(config);
    assert(s.deploy_steps(root, facts, files, json) =~= save + (open + body));
    lemma_run_concat(w, save, open + body);
    lemma_run_concat(w.run(save), open, body);
    let saved = w.run(save);
    if facts.entry && !facts.backup {
        lemma_run_one(w, save[0]);
    } else {
        lemma_run_none(w);
    }
    assert forall|i: int| 0 <= i < open.len() implies !(#[trigger] open[i]).action.touches(
        entry,
    ) by {}
    lemma_run_frame(saved, open, entry);
    let opened = saved.run(open);
    lemma_block_owned(s, root, facts, true, files, json);
    lemma_files_build(s, root, files);
    assert(all_build(body)) by {
        assert forall|i: int| 0 <= i < body.len() implies builds((#[trigger] body[i]).action) by {
            if i < kept.len() {
                assert(body[i] == kept[i]);
            }
        }
    }
    lemma_body_writes_entry(s, root, body);
    assert(!makes(body, entry)) by {
        if makes(body, entry) {
            let i = choose|i: int|
                0 <= i < body.len() && (#[trigger] body[i]).action is MakeDirs
                    && body[i].action.touches(entry);
            assert(body[i].action is WriteText || !body[i].action.touches(entry));
        }
    }
    lemma_building_leaves(opened, body, entry);
    lemma_files_leave(s, root, files, entry);
    assert(body =~= kept + seq![config]);
    lemma_written_concat(kept, seq![config], entry);
    lemma_one_write(config, entry);
}

} // verus!
