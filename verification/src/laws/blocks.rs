//! The plans taken apart: each is a row of blocks, one per subsystem, and
//! every step of a block stays within its subsystem.

use crate::laws::site::lemma_shapes;
use crate::layout::{SiteFacts, Subsystem};
use crate::paths::PathView;
use crate::plan::StepView;
use crate::rewrite::rel_components;
use crate::text::split_text;
use vstd::prelude::*;

verus! {

/// A text without the separator is its own single piece.
pub proof fn lemma_split_plain(s: Seq<char>, sep: char)
    requires
        forall|i: int| 0 <= i < s.len() ==> s[i] != sep,
    ensures
        split_text(s, sep) == seq![s],
    decreases s.len(),
{
    if s.len() > 0 {
        lemma_split_plain(s.drop_last(), sep);
        assert(s.drop_last().push(s.last()) =~= s);
        assert(seq![s.drop_last()].update(0, s.drop_last().push(s.last())) =~= seq![s]);
    } else {
        assert(s =~= Seq::<char>::empty());
    }
}

/// The pieces of two texts joined by the separator are the pieces of the
/// first, then the pieces of the second.
pub proof fn lemma_split_joined(x: Seq<char>, y: Seq<char>, sep: char)
    ensures
        split_text(x + seq![sep] + y, sep) == split_text(x, sep) + split_text(y, sep),
    decreases y.len(),
{
    let whole = x + seq![sep] + y;
    crate::version::lemma_split_nonempty(x, sep);
    crate::version::lemma_split_nonempty(y, sep);
    if y.len() == 0 {
        assert(whole.drop_last() =~= x);
        assert(whole.last() == sep);
        assert(split_text(y, sep) =~= seq![Seq::<char>::empty()]);
        assert(split_text(whole, sep) =~= split_text(x, sep) + split_text(y, sep));
    } else {
        lemma_split_joined(x, y.drop_last(), sep);
        crate::version::lemma_split_nonempty(y.drop_last(), sep);
        assert(whole.drop_last() =~= x + seq![sep] + y.drop_last());
        assert(whole.last() == y.last());
        let init = split_text(x, sep) + split_text(y.drop_last(), sep);
        assert(init.last() == split_text(y.drop_last(), sep).last());
        assert(split_text(whole, sep) =~= split_text(x, sep) + split_text(y, sep));
    }
}

/// The names of the patched files hold no slash.
pub proof fn lemma_names_plain(s: Subsystem)
    ensures
        forall|i: int| 0 <= i < s.entry_name().len() ==> s.entry_name()[i] != '/',
        forall|i: int| 0 <= i < s.panel_name().len() ==> s.panel_name()[i] != '/',
        s.entry_name().len() > 0,
        s.panel_name().len() > 0,
{
    reveal_strlit("cascade-panel.html");
    reveal_strlit("cascade-panel");
    reveal_strlit("workbench.html");
    reveal_strlit("sidebar-panel");
    reveal_strlit("workbench-jetski-agent.html");
    reveal_strlit("manager-panel");
}

/// Where a file of the bundle that a subsystem keeps is written: to the
/// entry file, or into the directory of patch files.
pub proof fn lemma_kept_place(s: Subsystem, root: PathView, rel: Seq<char>)
    requires
        s.keeps(rel),
    ensures
        ({
            let place = s.place_of(root, rel);
            (place == s.entry_of(root) && place.above() == s.base_of(root)) || (place.within(
                s.panel_of(root),
            ) && (place.above() == s.base_of(root) || place.above().within(s.panel_of(root))))
        }),
{
    lemma_names_plain(s);
    lemma_shapes(s, root);
    let keep = |piece: Seq<char>| piece.len() > 0;
    let base = s.base_of(root);
    let place = s.place_of(root, rel);
    if rel == s.entry_name() {
        lemma_split_plain(rel, '/');
        reveal(Seq::filter);
        assert(seq![rel].drop_last() =~= Seq::<Seq<char>>::empty());
        assert(seq![rel].filter(keep) =~= seq![rel]);
        assert(place.names =~= base.names.push(rel));
        assert(place.above().names =~= base.names);
    } else {
        let panel = s.panel_name();
        let cut = (panel.len() + 1) as int;
        let rest = rel.skip(cut);
        assert(rel.subrange(0, cut) == panel + seq!['/']) by {
            assert((panel + seq!['/']).len() == cut);
        }
        assert(rel =~= panel + seq!['/'] + rest) by {
            assert forall|i: int| 0 <= i < rel.len() implies rel[i] == (panel + seq!['/'] + rest)[i] by {
                if i < cut {
                    assert(rel[i] == rel.subrange(0, cut)[i]);
                }
            }
        }
        lemma_split_joined(panel, rest, '/');
        lemma_split_plain(panel, '/');
        Seq::filter_distributes_over_add(seq![panel], split_text(rest, '/'), keep);
        reveal(Seq::filter);
        assert(seq![panel].drop_last() =~= Seq::<Seq<char>>::empty());
        assert(seq![panel].filter(keep) =~= seq![panel]);
        let tail = split_text(rest, '/').filter(keep);
        assert(rel_components(rel) == seq![panel] + tail);
        assert(place.names =~= base.names.push(panel) + tail);
        assert(place.names.take(s.panel_of(root).names.len() as int) =~= s.panel_of(root).names);
        if tail.len() == 0 {
            assert(place.above().names =~= base.names);
        } else {
            assert(place.above().names.take(s.panel_of(root).names.len() as int) =~= s.panel_of(
                root,
            ).names);
        }
    }
}

impl Subsystem {
    /// The steps that deploy this subsystem from a bundle that is there.
    pub open spec fn deploy_steps(
        self,
        root: PathView,
        facts: SiteFacts,
        files: Seq<(Seq<char>, Seq<char>)>,
        json: Seq<char>,
    ) -> Seq<StepView> {
        self.backup_steps(root, facts) + self.open_steps(root, facts) + self.files_steps(
            root,
            files,
        ).push(self.config_step(root, json))
    }

    /// The block of this subsystem in a plan: deploy, or restore.
    pub open spec fn block(
        self,
        root: PathView,
        facts: SiteFacts,
        deploy: bool,
        files: Seq<(Seq<char>, Seq<char>)>,
        json: Seq<char>,
    ) -> Seq<StepView> {
        if deploy {
            self.deploy_steps(root, facts, files, json)
        } else {
            self.restore_steps(root, facts)
        }
    }
}

/// The steps that write the files of a subsystem stay within it.
pub proof fn lemma_files_owned(s: Subsystem, root: PathView, files: Seq<(Seq<char>, Seq<char>)>)
    ensures
        s.owns_all(root, s.files_steps(root, files)),
    decreases files.len(),
{
    if files.len() > 0 {
        lemma_files_owned(s, root, files.drop_last());
        if s.keeps(files.last().0) {
            lemma_kept_place(s, root, files.last().0);
            let before = s.files_steps(root, files.drop_last());
            let more = s.file_steps(root, files.last().0, files.last().1);
            assert forall|i: int| 0 <= i < (before + more).len() implies s.owns(
                root,
                (#[trigger] (before + more)[i]).action,
            ) by {
                if i < before.len() {
                    assert((before + more)[i] == before[i]);
                } else {
                    assert((before + more)[i] == more[i - before.len()]);
                }
            }
        }
    }
}

/// Every step of a block stays within its subsystem.
pub proof fn lemma_block_owned(
    s: Subsystem,
    root: PathView,
    facts: SiteFacts,
    deploy: bool,
    files: Seq<(Seq<char>, Seq<char>)>,
    json: Seq<char>,
)
    ensures
        s.owns_all(root, s.block(root, facts, deploy, files, json)),
        s.owns_all(root, s.backup_steps(root, facts)),
        s.owns_all(root, s.open_steps(root, facts)),
        s.owns_all(root, s.restore_steps(root, facts)),
        s.owns_all(root, s.files_steps(root, files).push(s.config_step(root, json))),
{
    lemma_files_owned(s, root, files);
    lemma_shapes(s, root);
    let config = s.config_step(root, json);
    assert(s.config_of(root).within(s.panel_of(root))) by {
        assert(s.config_of(root).names.take(s.panel_of(root).names.len() as int) =~= s.panel_of(
            root,
        ).names);
    }
    assert(s.panel_of(root).within(s.panel_of(root))) by {
        assert(s.panel_of(root).names.take(s.panel_of(root).names.len() as int) =~= s.panel_of(
            root,
        ).names);
    }
    let body = s.files_steps(root, files).push(config);
    assert forall|i: int| 0 <= i < body.len() implies s.owns(root, (#[trigger] body[i]).action) by {
        if i < body.len() - 1 {
            assert(body[i] == s.files_steps(root, files)[i]);
        }
    }
    let all = s.deploy_steps(root, facts, files, json);
    assert forall|i: int| 0 <= i < all.len() implies s.owns(root, (#[trigger] all[i]).action) by {
        let a = s.backup_steps(root, facts);
        let b = s.open_steps(root, facts);
        if i < a.len() {
            assert(all[i] == a[i]);
        } else if i < a.len() + b.len() {
            assert(all[i] == b[i - a.len()]);
        } else {
            assert(all[i] == body[i - a.len() - b.len()]);
        }
    }
}

} // verus!
