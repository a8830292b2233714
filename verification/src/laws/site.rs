//! Which paths belong to which subsystem, and why the plan of one subsystem
//! leaves the files of another alone.

use crate::layout::{extensions_dir_of, workbench_dir_of, Subsystem};
use crate::paths::PathView;
use crate::plan::{ActionView, StepView, World};
use vstd::prelude::*;

verus! {

impl Subsystem {
    /// Whether a path belongs to this subsystem: its entry file, the backup
    /// of that, or anything in its directory of patch files.
    pub open spec fn site(self, root: PathView, p: PathView) -> bool {
        p == self.entry_of(root) || p == self.backup_of(root) || p.within(self.panel_of(root))
    }

    /// Whether an action is one that the plans of this subsystem make.
    pub open spec fn owns(self, root: PathView, a: ActionView) -> bool {
        match a {
            ActionView::CopyFile { from, to } => (from == self.entry_of(root) && to
                == self.backup_of(root)) || (from == self.backup_of(root) && to == self.entry_of(
                root,
            )),
            ActionView::RemoveFile { path } => path == self.backup_of(root),
            ActionView::RemoveTree { path } => path == self.panel_of(root),
            ActionView::MakeDirs { path } => path == self.base_of(root) || path.within(
                self.panel_of(root),
            ),
            ActionView::WriteText { path, content } => path == self.entry_of(root) || path.within(
                self.panel_of(root),
            ),
            ActionView::CheckFile { path } => false,
            ActionView::MarkExecutable { path } => false,
        }
    }

    /// Whether every step of a list is one that this subsystem makes.
    pub open spec fn owns_all(self, root: PathView, steps: Seq<StepView>) -> bool {
        forall|i: int| 0 <= i < steps.len() ==> self.owns(root, (#[trigger] steps[i]).action)
    }

    /// The names that lead from the resource root to the directory of the
    /// entry file.
    pub open spec fn base_tail(self) -> Seq<Seq<char>> {
        match self {
            Subsystem::LegacySidebar => seq!["extensions"@, "antigravity"@],
            _ => seq!["out"@, "vs"@, "code"@, "electron-browser"@, "workbench"@],
        }
    }
}

/// Whether two worlds hold the same at every path of a subsystem.
pub open spec fn site_equal(u: World, v: World, s: Subsystem, root: PathView) -> bool {
    forall|p: PathView| #[trigger] s.site(root, p) ==> u.at(p) == v.at(p)
}

/// The names of the patched files differ from each other, as do the first
/// names of the two directories.
pub proof fn lemma_names_differ()
    ensures
        forall|s: Subsystem, t: Subsystem| #[trigger]
            s.entry_name() != #[trigger] t.backup_name(),
        forall|s: Subsystem, t: Subsystem| #[trigger]
            s.entry_name() != #[trigger] t.panel_name(),
        forall|s: Subsystem, t: Subsystem| #[trigger]
            s.backup_name() != #[trigger] t.panel_name(),
        forall|s: Subsystem, t: Subsystem|
            s != t ==> #[trigger] s.entry_name() != #[trigger] t.entry_name(),
        forall|s: Subsystem, t: Subsystem|
            s != t ==> #[trigger] s.backup_name() != #[trigger] t.backup_name(),
        forall|s: Subsystem, t: Subsystem|
            s != t ==> #[trigger] s.panel_name() != #[trigger] t.panel_name(),
        "extensions"@ != "out"@,
{
    reveal_strlit("cascade-panel.html");
    reveal_strlit("cascade-panel.html.bak");
    reveal_strlit("cascade-panel");
    reveal_strlit("workbench.html");
    reveal_strlit("workbench.html.bak");
    reveal_strlit("sidebar-panel");
    reveal_strlit("workbench-jetski-agent.html");
    reveal_strlit("workbench-jetski-agent.html.bak");
    reveal_strlit("manager-panel");
    reveal_strlit("extensions");
    reveal_strlit("out");
    assert("cascade-panel.html"@.len() == 18 && "cascade-panel.html"@[0] == 'c');
    assert("cascade-panel.html.bak"@.len() == 22);
    assert("cascade-panel"@.len() == 13 && "cascade-panel"@[0] == 'c');
    assert("workbench.html"@.len() == 14);
    assert("workbench.html.bak"@.len() == 18 && "workbench.html.bak"@[0] == 'w');
    assert("sidebar-panel"@.len() == 13 && "sidebar-panel"@[0] == 's');
    assert("workbench-jetski-agent.html"@.len() == 27);
    assert("workbench-jetski-agent.html.bak"@.len() == 31);
    assert("manager-panel"@.len() == 13 && "manager-panel"@[0] == 'm');
    assert("extensions"@.len() == 10);
    assert("out"@.len() == 3);
    assert forall|s: Subsystem, t: Subsystem| #[trigger]
        s.entry_name() != #[trigger] t.backup_name() by {
        assert(s.entry_name().len() != t.backup_name().len() || s.entry_name()[0]
            != t.backup_name()[0]);
    }
    assert forall|s: Subsystem, t: Subsystem| #[trigger]
        s.entry_name() != #[trigger] t.panel_name() by {
        assert(s.entry_name().len() != t.panel_name().len());
    }
    assert forall|s: Subsystem, t: Subsystem| #[trigger]
        s.backup_name() != #[trigger] t.panel_name() by {
        assert(s.backup_name().len() != t.panel_name().len());
    }
    assert forall|s: Subsystem, t: Subsystem| s != t implies #[trigger] s.entry_name()
        != #[trigger] t.entry_name() by {
        assert(s.entry_name().len() != t.entry_name().len());
    }
    assert forall|s: Subsystem, t: Subsystem| s != t implies #[trigger] s.backup_name()
        != #[trigger] t.backup_name() by {
        assert(s.backup_name().len() != t.backup_name().len());
    }
    assert forall|s: Subsystem, t: Subsystem| s != t implies #[trigger] s.panel_name()
        != #[trigger] t.panel_name() by {
        assert(s.panel_name()[0] != t.panel_name()[0]);
    }
}

/// The shape of the paths of a subsystem: the names of the root, then the
/// names of the base directory, then one name of its own.
pub proof fn lemma_shapes(s: Subsystem, root: PathView)
    ensures
        s.base_of(root).anchor == root.anchor,
        s.base_of(root).names == root.names + s.base_tail(),
        s.entry_of(root).names == (root.names + s.base_tail()).push(s.entry_name()),
        s.backup_of(root).names == (root.names + s.base_tail()).push(s.backup_name()),
        s.panel_of(root).names == (root.names + s.base_tail()).push(s.panel_name()),
        s.entry_of(root).anchor == root.anchor,
        s.backup_of(root).anchor == root.anchor,
        s.panel_of(root).anchor == root.anchor,
{
    assert(extensions_dir_of(root).names =~= root.names + seq!["extensions"@, "antigravity"@]);
    assert(workbench_dir_of(root).names =~= root.names + seq![
        "out"@,
        "vs"@,
        "code"@,
        "electron-browser"@,
        "workbench"@,
    ]);
}

/// What tells the paths of two subsystems apart: the name at a position
/// that both have.
pub proof fn lemma_apart(s: Subsystem, t: Subsystem, root: PathView, p: PathView, q: PathView)
    requires
        s != t,
        p.names.len() > (root.names + s.base_tail()).len(),
        q.names.len() > (root.names + t.base_tail()).len(),
        p.names.take((root.names + s.base_tail()).len() as int) == root.names + s.base_tail(),
        q.names.take((root.names + t.base_tail()).len() as int) == root.names + t.base_tail(),
        p.names[(root.names + s.base_tail()).len() as int] == s.entry_name() || p.names[(root.names
            + s.base_tail()).len() as int] == s.backup_name() || p.names[(root.names
            + s.base_tail()).len() as int] == s.panel_name(),
        q.names[(root.names + t.base_tail()).len() as int] == t.entry_name() || q.names[(root.names
            + t.base_tail()).len() as int] == t.backup_name() || q.names[(root.names
            + t.base_tail()).len() as int] == t.panel_name(),
    ensures
        exists|i: int| 0 <= i < p.names.len() && i < q.names.len() && p.names[i] != q.names[i],
{
    lemma_names_differ();
    let n = root.names.len() as int;
    let ps = root.names + s.base_tail();
    let qs = root.names + t.base_tail();
    assert(p.names[n] == p.names.take(ps.len() as int)[n]);
    assert(q.names[n] == q.names.take(qs.len() as int)[n]);
    assert(ps[n] == s.base_tail()[0]);
    assert(qs[n] == t.base_tail()[0]);
    if s.base_tail() != t.base_tail() {
        assert(p.names[n] != q.names[n]);
    } else {
        let k = ps.len() as int;
        assert(p.names[k] != q.names[k]);
    }
}

/// Whether a path lies below the base directory of a subsystem and begins
/// there with one of the subsystem's own names.
pub open spec fn shaped(s: Subsystem, root: PathView, p: PathView) -> bool {
    let lead = root.names + s.base_tail();
    p.names.len() > lead.len() && p.names.take(lead.len() as int) == lead && (p.names[lead.len() as int]
        == s.entry_name() || p.names[lead.len() as int] == s.backup_name() || p.names[lead.len() as int]
        == s.panel_name())
}

/// Every path of a subsystem has its shape.
pub proof fn lemma_site_shaped(s: Subsystem, root: PathView, p: PathView)
    requires
        s.site(root, p),
    ensures
        shaped(s, root, p),
        p.anchor == root.anchor,
{
    lemma_shapes(s, root);
    let lead = root.names + s.base_tail();
    if p == s.entry_of(root) {
        assert(p.names.take(lead.len() as int) =~= lead);
    } else if p == s.backup_of(root) {
        assert(p.names.take(lead.len() as int) =~= lead);
    } else {
        let panel = s.panel_of(root).names;
        assert(p.names.take(panel.len() as int) == panel);
        assert(p.names.take(lead.len() as int) =~= p.names.take(panel.len() as int).take(
            lead.len() as int,
        ));
        assert(panel.take(lead.len() as int) =~= lead);
        assert(p.names[lead.len() as int] == p.names.take(panel.len() as int)[lead.len() as int]);
    }
}

/// No path has the shapes of two subsystems.
pub proof fn lemma_one_shape(s: Subsystem, t: Subsystem, root: PathView, p: PathView)
    requires
        shaped(s, root, p),
        shaped(t, root, p),
    ensures
        s == t,
{
    if s != t {
        lemma_apart(s, t, root, p, p);
    }
}

/// A path below a shaped path has the same shape.
pub proof fn lemma_shape_below(s: Subsystem, root: PathView, p: PathView, q: PathView)
    requires
        shaped(s, root, p),
        q.within(p),
    ensures
        shaped(s, root, q),
{
    let lead = root.names + s.base_tail();
    assert(q.names.take(lead.len() as int) =~= q.names.take(p.names.len() as int).take(
        lead.len() as int,
    ));
    assert(q.names[lead.len() as int] == q.names.take(p.names.len() as int)[lead.len() as int]);
}

/// An action that one subsystem makes touches no path of another.
pub proof fn lemma_foreign(s: Subsystem, t: Subsystem, root: PathView, a: ActionView, p: PathView)
    requires
        s != t,
        s.owns(root, a),
        t.site(root, p),
    ensures
        !a.touches(p),
{
    lemma_site_shaped(t, root, p);
    lemma_shapes(s, root);
    lemma_shapes(t, root);
    if a.touches(p) {
        match a {
            ActionView::CopyFile { from, to } => {
                assert(s.site(root, p));
                lemma_site_shaped(s, root, p);
                lemma_one_shape(s, t, root, p);
            },
            ActionView::RemoveFile { path } => {
                assert(s.site(root, p));
                lemma_site_shaped(s, root, p);
                lemma_one_shape(s, t, root, p);
            },
            ActionView::RemoveTree { path } => {
                assert(s.site(root, p));
                lemma_site_shaped(s, root, p);
                lemma_one_shape(s, t, root, p);
            },
            ActionView::MakeDirs { path } => {
                if path == s.base_of(root) {
                    let lead_s = root.names + s.base_tail();
                    let lead_t = root.names + t.base_tail();
                    let n = root.names.len() as int;
                    assert(p.names == lead_s.take(p.names.len() as int));
                    assert(p.names[n] == p.names.take(lead_t.len() as int)[n]);
                    assert(lead_t[n] == t.base_tail()[0]);
                    assert(lead_s[n] == s.base_tail()[0]);
                    lemma_names_differ();
                } else {
                    assert(s.site(root, path));
                    lemma_site_shaped(s, root, path);
                    lemma_shape_below(t, root, p, path);
                    lemma_one_shape(s, t, root, path);
                }
            },
            ActionView::WriteText { path, content } => {
                assert(s.site(root, p));
                lemma_site_shaped(s, root, p);
                lemma_one_shape(s, t, root, p);
            },
            _ => {},
        }
    }
}

/// Steps that one subsystem makes leave every path of another as it is.
pub proof fn lemma_foreign_run(
    s: Subsystem,
    t: Subsystem,
    root: PathView,
    w: World,
    steps: Seq<StepView>,
)
    requires
        s != t,
        s.owns_all(root, steps),
    ensures
        site_equal(w.run(steps), w, t, root),
{
    assert forall|p: PathView| #[trigger] t.site(root, p) implies w.run(steps).at(p) == w.at(p) by {
        assert forall|i: int| 0 <= i < steps.len() implies !(#[trigger] steps[i]).action.touches(
            p,
        ) by {
            lemma_foreign(s, t, root, steps[i].action, p);
        }
        crate::plan::lemma_run_frame(w, steps, p);
    }
}

/// What an action of a subsystem leaves at a path of that subsystem depends
/// only on what the subsystem's paths held before.
pub proof fn lemma_local(s: Subsystem, root: PathView, a: ActionView, u: World, v: World)
    requires
        s.owns(root, a),
        site_equal(u, v, s, root),
    ensures
        site_equal(u.apply(a), v.apply(a), s, root),
{
    assert forall|p: PathView| #[trigger] s.site(root, p) implies u.apply(a).at(p) == v.apply(a).at(
        p,
    ) by {
        assert(u.at(p) == v.at(p));
        match a {
            ActionView::CopyFile { from, to } => {
                assert(s.site(root, from));
                assert(u.at(from) == v.at(from));
            },
            _ => {},
        }
    }
}

/// The same for a list of steps.
pub proof fn lemma_local_run(
    s: Subsystem,
    root: PathView,
    steps: Seq<StepView>,
    u: World,
    v: World,
)
    requires
        s.owns_all(root, steps),
        site_equal(u, v, s, root),
    ensures
        site_equal(u.run(steps), v.run(steps), s, root),
    decreases steps.len(),
{
    if steps.len() > 0 {
        assert(s.owns_all(root, steps.drop_last())) by {
            assert forall|i: int| 0 <= i < steps.drop_last().len() implies s.owns(
                root,
                (#[trigger] steps.drop_last()[i]).action,
            ) by {
                assert(steps.drop_last()[i] == steps[i]);
            }
        }
        lemma_local_run(s, root, steps.drop_last(), u, v);
        assert(s.owns(root, steps[steps.len() - 1].action));
        lemma_local(
            s,
            root,
            steps.last().action,
            u.run(steps.drop_last()),
            v.run(steps.drop_last()),
        );
    }
}

} // verus!
