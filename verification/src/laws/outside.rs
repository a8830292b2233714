//! The paths that belong to no subsystem: a plan does nothing to them but
//! make directories.

use crate::laws::effects::lemma_site_apart;
use crate::layout::{SiteFacts, Subsystem};
use crate::paths::PathView;
use crate::plan::{ActionView, Node, StepView, World};
use vstd::prelude::*;

verus! {

/// Whether a path belongs to one of the three subsystems.
pub open spec fn in_a_site(root: PathView, p: PathView) -> bool {
    Subsystem::LegacySidebar.site(root, p) || Subsystem::ModernSidebar.site(root, p)
        || Subsystem::Manager.site(root, p)
}

/// Whether every step of a list is one that some subsystem makes.
pub open spec fn owned_steps(root: PathView, steps: Seq<StepView>) -> bool {
    forall|i: int|
        0 <= i < steps.len() ==> Subsystem::LegacySidebar.owns(root, (#[trigger] steps[i]).action)
            || Subsystem::ModernSidebar.owns(root, steps[i].action) || Subsystem::Manager.owns(
            root,
            steps[i].action,
        )
}

/// Whether one of some steps makes the directory at a path, as the
/// directory asked for or as one above it.
pub open spec fn makes(steps: Seq<StepView>, p: PathView) -> bool {
    exists|i: int|
        0 <= i < steps.len() && (#[trigger] steps[i]).action is MakeDirs && steps[i].action.touches(
            p,
        )
}

/// An action of a subsystem that touches a path outside the subsystem makes
/// directories.
pub proof fn lemma_touch_outside(s: Subsystem, root: PathView, a: ActionView, p: PathView)
    requires
        s.owns(root, a),
        a.touches(p),
        !s.site(root, p),
    ensures
        a is MakeDirs,
{
    lemma_site_apart(s, root);
}

/// What steps that touch a path only by making directories leave there:
/// what was there, or a directory where nothing was and one of them made it.
pub proof fn lemma_only_dirs(w: World, steps: Seq<StepView>, p: PathView)
    requires
        forall|i: int|
            0 <= i < steps.len() ==> (#[trigger] steps[i]).action is MakeDirs
                || !steps[i].action.touches(p),
    ensures
        w.run(steps).at(p) == (if w.has(p) {
            w.at(p)
        } else if makes(steps, p) {
            Some(Node::Dir)
        } else {
            None::<Node>
        }),
    decreases steps.len(),
{
    if steps.len() > 0 {
        let init = steps.drop_last();
        assert forall|i: int| 0 <= i < init.len() implies (#[trigger] init[i]).action is MakeDirs
            || !init[i].action.touches(p) by {
            assert(init[i] == steps[i]);
        }
        lemma_only_dirs(w, init, p);
        let a = steps[steps.len() - 1].action;
        assert(a is MakeDirs || !a.touches(p));
        if makes(init, p) {
            let i = choose|i: int|
                0 <= i < init.len() && (#[trigger] init[i]).action is MakeDirs
                    && init[i].action.touches(p);
            assert(steps[i] == init[i]);
        }
        if makes(steps, p) && !makes(init, p) {
            let i = choose|i: int|
                0 <= i < steps.len() && (#[trigger] steps[i]).action is MakeDirs
                    && steps[i].action.touches(p);
            if i < init.len() {
                assert(init[i] == steps[i]);
            }
        }
    }
}

/// Steps of subsystems touch a path outside all of them only by making
/// directories.
pub proof fn lemma_outside_only_dirs(root: PathView, steps: Seq<StepView>, p: PathView)
    requires
        owned_steps(root, steps),
        !in_a_site(root, p),
    ensures
        forall|i: int|
            0 <= i < steps.len() ==> (#[trigger] steps[i]).action is MakeDirs
                || !steps[i].action.touches(p),
{
    assert forall|i: int| 0 <= i < steps.len() implies (#[trigger] steps[i]).action is MakeDirs
        || !steps[i].action.touches(p) by {
        let a = steps[i].action;
        if a.touches(p) {
            if Subsystem::LegacySidebar.owns(root, a) {
                lemma_touch_outside(Subsystem::LegacySidebar, root, a, p);
            } else if Subsystem::ModernSidebar.owns(root, a) {
                lemma_touch_outside(Subsystem::ModernSidebar, root, a, p);
            } else {
                lemma_touch_outside(Subsystem::Manager, root, a, p);
            }
        }
    }
}

/// Whatever the facts, the block of a subsystem makes the same directories.
pub proof fn lemma_makes_same(
    s: Subsystem,
    root: PathView,
    first: SiteFacts,
    second: SiteFacts,
    deploy: bool,
    files: Seq<(Seq<char>, Seq<char>)>,
    json: Seq<char>,
    p: PathView,
)
    requires
        makes(s.block(root, second, deploy, files, json), p),
    ensures
        makes(s.block(root, first, deploy, files, json), p),
{
    let two = s.block(root, second, deploy, files, json);
    let one = s.block(root, first, deploy, files, json);
    let i = choose|i: int|
        0 <= i < two.len() && (#[trigger] two[i]).action is MakeDirs && two[i].action.touches(p);
    if deploy {
        let body = s.files_steps(root, files).push(s.config_step(root, json));
        let head2 = s.backup_steps(root, second) + s.open_steps(root, second);
        let head1 = s.backup_steps(root, first) + s.open_steps(root, first);
        assert(two =~= head2 + body);
        assert(one =~= head1 + body);
        if i < head2.len() {
            assert(two[i] == head2[i]);
            assert(head2[i].action == ActionView::MakeDirs { path: s.panel_of(root) });
            let j = head1.len() - 1;
            assert(one[j] == head1[j]);
            assert(one[j].action == two[i].action);
        } else {
            let j = head1.len() + (i - head2.len());
            assert(two[i] == body[i - head2.len()]);
            assert(one[j] == body[j - head1.len()]);
        }
    }
}

/// Three lists of steps in a row make a directory just when one of them
/// does.
pub proof fn lemma_makes_three(a: Seq<StepView>, b: Seq<StepView>, c: Seq<StepView>, p: PathView)
    ensures
        makes(a + b + c, p) <==> makes(a, p) || makes(b, p) || makes(c, p),
{
    let all = a + b + c;
    if makes(all, p) {
        let i = choose|i: int|
            0 <= i < all.len() && (#[trigger] all[i]).action is MakeDirs && all[i].action.touches(p);
        if i < a.len() {
            assert(a[i] == all[i]);
        } else if i < a.len() + b.len() {
            assert(b[i - a.len()] == all[i]);
        } else {
            assert(c[i - a.len() - b.len()] == all[i]);
        }
    }
    if makes(a, p) {
        let i = choose|i: int|
            0 <= i < a.len() && (#[trigger] a[i]).action is MakeDirs && a[i].action.touches(p);
        assert(all[i] == a[i]);
    }
    if makes(b, p) {
        let i = choose|i: int|
            0 <= i < b.len() && (#[trigger] b[i]).action is MakeDirs && b[i].action.touches(p);
        assert(all[a.len() + i] == b[i]);
    }
    if makes(c, p) {
        let i = choose|i: int|
            0 <= i < c.len() && (#[trigger] c[i]).action is MakeDirs && c[i].action.touches(p);
        assert(all[a.len() + b.len() + i] == c[i]);
    }
}

} // verus!
