//! An install taken apart: three blocks in a row, one per subsystem, each
//! of which the files of its subsystem see alone.

use crate::deploy::{active_sidebar, idle_sidebar, install_plan, site_of, uninstall_steps};
use crate::laws::blocks::lemma_block_owned;
use crate::laws::effects::lemma_site_apart;
use crate::laws::outside::{lemma_makes_same, lemma_makes_three, makes, owned_steps};
use crate::laws::site::{lemma_foreign_run, lemma_local_run, site_equal};
use crate::layout::{observed, PatchFacts, Subsystem};
use crate::paths::PathView;
use crate::plan::{lemma_run_concat, StepView, World};
use crate::protocol::ConfigView;
use crate::version::SidebarPatchVariant;
use vstd::prelude::*;

verus! {

/// What an install is asked for, with the bundle at hand.
pub struct Setup {
    /// The layout that the target's version selects.
    pub variant: SidebarPatchVariant,
    pub sidebar: ConfigView,
    pub manager: ConfigView,
    /// The files of the bundle.
    pub files: Seq<(Seq<char>, Seq<char>)>,
}

impl Setup {
    /// The steps of the install, from the facts of a resource root.
    pub open spec fn steps(self, root: PathView, facts: PatchFacts) -> Seq<StepView> {
        install_plan(
            root,
            facts,
            self.variant,
            self.sidebar.enabled,
            self.sidebar.json,
            self.manager.enabled,
            self.manager.json,
            Ok(self.files),
        ).steps
    }

    /// The world after the install, performed on what the world shows.
    pub open spec fn installed(self, w: World, root: PathView) -> World {
        w.run(self.steps(root, observed(w, root)))
    }

    /// The subsystem whose block comes first.
    pub open spec fn first(self) -> Subsystem {
        if self.sidebar.enabled {
            active_sidebar(self.variant)
        } else {
            Subsystem::LegacySidebar
        }
    }

    /// The subsystem whose block comes second.
    pub open spec fn second(self) -> Subsystem {
        if self.sidebar.enabled {
            idle_sidebar(self.variant)
        } else {
            Subsystem::ModernSidebar
        }
    }

    /// Whether the install deploys a subsystem; it restores it otherwise.
    pub open spec fn deploys(self, s: Subsystem) -> bool {
        if s == Subsystem::Manager {
            self.manager.enabled
        } else {
            self.sidebar.enabled && s == active_sidebar(self.variant)
        }
    }

    /// The configuration that the install writes for a subsystem.
    pub open spec fn json_for(self, s: Subsystem) -> Seq<char> {
        if s == Subsystem::Manager {
            self.manager.json
        } else {
            self.sidebar.json
        }
    }

    /// The block of a subsystem.
    pub open spec fn block(self, s: Subsystem, root: PathView, facts: PatchFacts) -> Seq<StepView> {
        s.block(root, site_of(facts, s), self.deploys(s), self.files, self.json_for(s))
    }
}

/// The world after an uninstall, performed on what the world shows.
pub open spec fn uninstalled(w: World, root: PathView) -> World {
    w.run(uninstall_steps(root, observed(w, root)))
}

/// The plan of an install is three blocks in a row, one for each subsystem,
/// and ends well.
pub proof fn lemma_install_blocks(setup: Setup, root: PathView, facts: PatchFacts)
    ensures
        setup.first() != setup.second(),
        setup.first() != Subsystem::Manager,
        setup.second() != Subsystem::Manager,
        install_plan(
            root,
            facts,
            setup.variant,
            setup.sidebar.enabled,
            setup.sidebar.json,
            setup.manager.enabled,
            setup.manager.json,
            Ok(setup.files),
        ).verdict is None,
        setup.steps(root, facts) == setup.block(setup.first(), root, facts) + setup.block(
            setup.second(),
            root,
            facts,
        ) + setup.block(Subsystem::Manager, root, facts),
        setup.first().owns_all(root, setup.block(setup.first(), root, facts)),
        setup.second().owns_all(root, setup.block(setup.second(), root, facts)),
        Subsystem::Manager.owns_all(root, setup.block(Subsystem::Manager, root, facts)),
{
    let x = setup.first();
    let y = setup.second();
    let z = Subsystem::Manager;
    assert(setup.steps(root, facts) =~= setup.block(x, root, facts) + setup.block(y, root, facts)
        + setup.block(z, root, facts));
    lemma_block_owned(x, root, site_of(facts, x), setup.deploys(x), setup.files, setup.json_for(x));
    lemma_block_owned(y, root, site_of(facts, y), setup.deploys(y), setup.files, setup.json_for(y));
    lemma_block_owned(z, root, site_of(facts, z), setup.deploys(z), setup.files, setup.json_for(z));
}

/// Of three blocks of three subsystems in a row, the files of each
/// subsystem see only their own block.
pub proof fn lemma_projection(
    w: World,
    root: PathView,
    x: Subsystem,
    y: Subsystem,
    z: Subsystem,
    bx: Seq<StepView>,
    by: Seq<StepView>,
    bz: Seq<StepView>,
)
    requires
        x != y,
        y != z,
        x != z,
        x.owns_all(root, bx),
        y.owns_all(root, by),
        z.owns_all(root, bz),
    ensures
        site_equal(w.run(bx + by + bz), w.run(bx), x, root),
        site_equal(w.run(bx + by + bz), w.run(by), y, root),
        site_equal(w.run(bx + by + bz), w.run(bz), z, root),
{
    lemma_run_concat(w, bx + by, bz);
    lemma_run_concat(w, bx, by);
    let wa = w.run(bx);
    let wb = wa.run(by);
    lemma_foreign_run(y, x, root, wa, by);
    lemma_foreign_run(z, x, root, wb, bz);
    lemma_foreign_run(x, y, root, w, bx);
    lemma_local_run(y, root, by, wa, w);
    lemma_foreign_run(z, y, root, wb, bz);
    lemma_foreign_run(x, z, root, w, bx);
    lemma_foreign_run(y, z, root, wa, by);
    lemma_local_run(z, root, bz, wb, w);
}

/// After an install the files of each subsystem are what the block of that
/// subsystem alone would have left.
pub proof fn lemma_install_projection(setup: Setup, w: World, root: PathView, s: Subsystem)
    ensures
        site_equal(
            setup.installed(w, root),
            w.run(
                s.block(
                    root,
                    s.observed(w, root),
                    setup.deploys(s),
                    setup.files,
                    setup.json_for(s),
                ),
            ),
            s,
            root,
        ),
{
    let facts = observed(w, root);
    let x = setup.first();
    let y = setup.second();
    let z = Subsystem::Manager;
    lemma_install_blocks(setup, root, facts);
    lemma_projection(
        w,
        root,
        x,
        y,
        z,
        setup.block(x, root, facts),
        setup.block(y, root, facts),
        setup.block(z, root, facts),
    );
    assert(site_of(facts, s) == s.observed(w, root));
}

/// After an uninstall the files of each subsystem are what restoring that
/// subsystem alone would have left.
pub proof fn lemma_uninstall_projection(w: World, root: PathView, s: Subsystem)
    ensures
        site_equal(
            uninstalled(w, root),
            w.run(s.restore_steps(root, s.observed(w, root))),
            s,
            root,
        ),
{
    let facts = observed(w, root);
    let x = Subsystem::LegacySidebar;
    let y = Subsystem::ModernSidebar;
    let z = Subsystem::Manager;
    let none = Seq::<(Seq<char>, Seq<char>)>::empty();
    lemma_block_owned(x, root, facts.legacy, false, none, Seq::empty());
    lemma_block_owned(y, root, facts.modern, false, none, Seq::empty());
    lemma_block_owned(z, root, facts.manager, false, none, Seq::empty());
    lemma_projection(
        w,
        root,
        x,
        y,
        z,
        x.restore_steps(root, facts.legacy),
        y.restore_steps(root, facts.modern),
        z.restore_steps(root, facts.manager),
    );
}

/// Worlds that agree on the files of a subsystem show the same facts of it.
pub proof fn lemma_same_facts(u: World, v: World, s: Subsystem, root: PathView)
    requires
        site_equal(u, v, s, root),
    ensures
        s.observed(u, root) == s.observed(v, root),
{
    lemma_site_apart(s, root);
    assert(s.site(root, s.entry_of(root)));
    assert(s.site(root, s.backup_of(root)));
    assert(s.site(root, s.panel_of(root)));
    assert(s.site(root, s.config_of(root)));
    assert(u.at(s.entry_of(root)) == v.at(s.entry_of(root)));
    assert(u.at(s.backup_of(root)) == v.at(s.backup_of(root)));
    assert(u.at(s.panel_of(root)) == v.at(s.panel_of(root)));
    assert(u.at(s.config_of(root)) == v.at(s.config_of(root)));
}

/// The steps of an install are steps of the three subsystems.
pub proof fn lemma_install_owned(setup: Setup, root: PathView, facts: PatchFacts)
    ensures
        owned_steps(root, setup.steps(root, facts)),
{
    let x = setup.first();
    let y = setup.second();
    let z = Subsystem::Manager;
    let bx = setup.block(x, root, facts);
    let by = setup.block(y, root, facts);
    let bz = setup.block(z, root, facts);
    let steps = setup.steps(root, facts);
    lemma_install_blocks(setup, root, facts);
    assert forall|i: int| 0 <= i < steps.len() implies Subsystem::LegacySidebar.owns(
        root,
        (#[trigger] steps[i]).action,
    ) || Subsystem::ModernSidebar.owns(root, steps[i].action) || Subsystem::Manager.owns(
        root,
        steps[i].action,
    ) by {
        if i < bx.len() {
            assert(steps[i] == bx[i]);
            assert(x.owns(root, bx[i].action));
        } else if i < bx.len() + by.len() {
            assert(steps[i] == by[i - bx.len()]);
            assert(y.owns(root, by[i - bx.len()].action));
        } else {
            assert(steps[i] == bz[i - bx.len() - by.len()]);
            assert(z.owns(root, bz[i - bx.len() - by.len()].action));
        }
    }
}

/// Whatever the facts, an install makes the same directories.
pub proof fn lemma_install_makes_same(
    setup: Setup,
    root: PathView,
    first: PatchFacts,
    second: PatchFacts,
    p: PathView,
)
    requires
        makes(setup.steps(root, second), p),
    ensures
        makes(setup.steps(root, first), p),
{
    let x = setup.first();
    let y = setup.second();
    let z = Subsystem::Manager;
    lemma_install_blocks(setup, root, first);
    lemma_install_blocks(setup, root, second);
    lemma_makes_three(
        setup.block(x, root, first),
        setup.block(y, root, first),
        setup.block(z, root, first),
        p,
    );
    lemma_makes_three(
        setup.block(x, root, second),
        setup.block(y, root, second),
        setup.block(z, root, second),
        p,
    );
    if makes(setup.block(x, root, second), p) {
        lemma_makes_same(
            x,
            root,
            site_of(first, x),
            site_of(second, x),
            setup.deploys(x),
            setup.files,
            setup.json_for(x),
            p,
        );
    }
    if makes(setup.block(y, root, second), p) {
        lemma_makes_same(
            y,
            root,
            site_of(first, y),
            site_of(second, y),
            setup.deploys(y),
            setup.files,
            setup.json_for(y),
            p,
        );
    }
    if makes(setup.block(z, root, second), p) {
        lemma_makes_same(
            z,
            root,
            site_of(first, z),
            site_of(second, z),
            setup.deploys(z),
            setup.files,
            setup.json_for(z),
            p,
        );
    }
}

} // verus!
