//! What holds of the files after an install, an uninstall and a second
//! install.
//!
//! The laws speak of a `World` and of the plans that are made from what that
//! world shows, performed without a failure.

use crate::deploy::{active_sidebar, idle_sidebar, reconfigure_steps, update_steps};
use crate::laws::blocks::lemma_block_owned;
use crate::laws::effects::{builds, lemma_deploy_effect, lemma_deploy_leaves,
    lemma_deploy_leaves_entry, lemma_files_build, lemma_restore_effect, lemma_run_none,
    lemma_site_apart, lemma_spares_backup};
use crate::laws::outside::{in_a_site, lemma_only_dirs, lemma_outside_only_dirs, makes};
use crate::laws::parts::{lemma_install_blocks, lemma_install_makes_same, lemma_install_owned,
    lemma_install_projection, lemma_same_facts, lemma_uninstall_projection, uninstalled, Setup};
use crate::laws::repeat::{lemma_closed_hollow, lemma_redeploy};
use crate::laws::site::{lemma_foreign, lemma_foreign_run, lemma_local_run, site_equal};
use crate::layout::{observed, SiteFacts, Subsystem};
use crate::paths::PathView;
use crate::plan::{lemma_run_frame, Node, StepView, World};
use vstd::prelude::*;
use vstd::utf8::encode_utf8;

verus! {

/// Round trip. An entry file that is there before an install, with no
/// backup beside it, holds the same bytes after the install and an
/// uninstall, and no backup is left beside it. This holds for each of the
/// three entry files, whatever the install was asked to switch on.
pub proof fn lemma_round_trip(setup: Setup, w: World, root: PathView, s: Subsystem)
    requires
        w.is_file(s.entry_of(root)),
        !w.has(s.backup_of(root)),
    ensures
        uninstalled(setup.installed(w, root), root).at(s.entry_of(root)) == w.at(s.entry_of(root)),
        !uninstalled(setup.installed(w, root), root).has(s.backup_of(root)),
{
    let installed = setup.installed(w, root);
    let restored = uninstalled(installed, root);
    let alone = w.run(
        s.block(root, s.observed(w, root), setup.deploys(s), setup.files, setup.json_for(s)),
    );
    lemma_site_apart(s, root);
    lemma_install_projection(setup, w, root, s);
    lemma_same_facts(installed, alone, s, root);
    lemma_uninstall_projection(installed, root, s);
    let undo = s.restore_steps(root, s.observed(alone, root));
    lemma_block_owned(s, root, s.observed(alone, root), false, setup.files, setup.json_for(s));
    lemma_local_run(s, root, undo, installed, alone);
    lemma_restore_effect(s, root, alone);
    if setup.deploys(s) {
        lemma_deploy_effect(s, root, w, setup.files, setup.json_for(s));
    } else {
        lemma_restore_effect(s, root, w);
    }
    assert(s.site(root, s.entry_of(root)));
    assert(s.site(root, s.backup_of(root)));
    assert(restored.at(s.entry_of(root)) == installed.run(undo).at(s.entry_of(root)));
    assert(installed.run(undo).at(s.entry_of(root)) == alone.run(undo).at(s.entry_of(root)));
    assert(restored.at(s.backup_of(root)) == alone.run(undo).at(s.backup_of(root)));
}

/// Idempotence, subsystem by subsystem. A second install with the same
/// configuration, on a target of the same version, leaves every file of a
/// subsystem as the first install left it: no second backup, no other
/// content. It is stated for a world in which every path lies in a
/// directory that exists, and for a subsystem that, where it is deployed,
/// had its entry file or a backup of it.
pub proof fn lemma_install_twice(setup: Setup, w: World, root: PathView, s: Subsystem)
    requires
        w.closed(),
        setup.deploys(s) ==> w.is_file(s.entry_of(root)) || w.has(s.backup_of(root)),
    ensures
        site_equal(
            setup.installed(setup.installed(w, root), root),
            setup.installed(w, root),
            s,
            root,
        ),
{
    let once = setup.installed(w, root);
    let twice = setup.installed(once, root);
    let deploy = setup.deploys(s);
    let json = setup.json_for(s);
    let alone = w.run(s.block(root, s.observed(w, root), deploy, setup.files, json));
    let again = s.block(root, s.observed(alone, root), deploy, setup.files, json);
    lemma_install_projection(setup, w, root, s);
    lemma_install_projection(setup, once, root, s);
    lemma_same_facts(once, alone, s, root);
    lemma_block_owned(s, root, s.observed(alone, root), deploy, setup.files, json);
    lemma_local_run(s, root, again, once, alone);
    if deploy {
        if !w.has(s.panel_of(root)) {
            lemma_closed_hollow(w, s.panel_of(root));
        }
        lemma_redeploy(s, root, w, setup.files, json);
    } else {
        lemma_restore_effect(s, root, w);
        assert(again =~= Seq::<StepView>::empty());
        lemma_run_none(alone);
    }
    assert forall|p: PathView| #[trigger] s.site(root, p) implies twice.at(p) == once.at(p) by {
        assert(twice.at(p) == once.run(again).at(p));
        assert(once.run(again).at(p) == alone.run(again).at(p));
        assert(alone.run(again).at(p) == alone.at(p));
    }
}

/// Idempotence, for the whole disk. A second install with the same
/// configuration, on a target of the same version, leaves at every path
/// what the first install left there. It is stated for a world in which
/// every path lies in a directory that exists, and in which each subsystem
/// that is deployed had its entry file or a backup of it. (The manifest is
/// no part of a plan: what a second install does to it is stated with the
/// laws of the engine's runs.)
pub proof fn lemma_install_twice_everywhere(setup: Setup, w: World, root: PathView, p: PathView)
    requires
        w.closed(),
        forall|s: Subsystem| #[trigger]
            setup.deploys(s) ==> w.is_file(s.entry_of(root)) || w.has(s.backup_of(root)),
    ensures
        setup.installed(setup.installed(w, root), root).at(p) == setup.installed(w, root).at(p),
{
    let plan1 = setup.steps(root, observed(w, root));
    let once = setup.installed(w, root);
    let plan2 = setup.steps(root, observed(once, root));
    if in_a_site(root, p) {
        let s = if Subsystem::LegacySidebar.site(root, p) {
            Subsystem::LegacySidebar
        } else if Subsystem::ModernSidebar.site(root, p) {
            Subsystem::ModernSidebar
        } else {
            Subsystem::Manager
        };
        assert(setup.deploys(s) ==> w.is_file(s.entry_of(root)) || w.has(s.backup_of(root)));
        lemma_install_twice(setup, w, root, s);
        assert(s.site(root, p));
    } else {
        lemma_install_owned(setup, root, observed(w, root));
        lemma_install_owned(setup, root, observed(once, root));
        lemma_outside_only_dirs(root, plan1, p);
        lemma_outside_only_dirs(root, plan2, p);
        lemma_only_dirs(w, plan1, p);
        lemma_only_dirs(once, plan2, p);
        if !once.has(p) && makes(plan2, p) {
            lemma_install_makes_same(setup, root, observed(w, root), observed(once, root), p);
        }
    }
}

/// Variant switch. An install with the sidebar on deploys the layout that
/// the version selects: its directory of patch files exists and holds the
/// configuration. The other layout is restored: its entry file holds what
/// its backup held, and neither its backup nor its directory is left. No
/// step of the install writes a file of the other layout.
pub proof fn lemma_variant_switch(setup: Setup, w: World, root: PathView)
    requires
        setup.sidebar.enabled,
    ensures
        ({
            let after = setup.installed(w, root);
            let steps = setup.steps(root, observed(w, root));
            let active = active_sidebar(setup.variant);
            let idle = idle_sidebar(setup.variant);
            &&& after.has(active.panel_of(root))
            &&& after.at(active.config_of(root)) == Some(
                Node::File(encode_utf8(setup.sidebar.json)),
            )
            &&& !after.has(idle.panel_of(root))
            &&& !after.has(idle.backup_of(root))
            &&& after.at(idle.entry_of(root)) == (if w.is_file(idle.backup_of(root)) {
                w.at(idle.backup_of(root))
            } else {
                w.at(idle.entry_of(root))
            })
            &&& forall|i: int|
                0 <= i < steps.len() && (#[trigger] steps[i]).action is WriteText ==> !idle.site(
                    root,
                    steps[i].action.target(),
                )
        }),
{
    let facts = observed(w, root);
    let steps = setup.steps(root, facts);
    let active = active_sidebar(setup.variant);
    let idle = idle_sidebar(setup.variant);
    let z = Subsystem::Manager;
    lemma_install_blocks(setup, root, facts);
    lemma_install_projection(setup, w, root, active);
    lemma_install_projection(setup, w, root, idle);
    lemma_site_apart(active, root);
    lemma_site_apart(idle, root);
    lemma_deploy_effect(active, root, w, setup.files, setup.sidebar.json);
    lemma_restore_effect(idle, root, w);
    assert(active.site(root, active.panel_of(root)));
    assert(active.site(root, active.config_of(root)));
    assert(idle.site(root, idle.panel_of(root)));
    assert(idle.site(root, idle.backup_of(root)));
    assert(idle.site(root, idle.entry_of(root)));
    let bx = setup.block(active, root, facts);
    let by = setup.block(idle, root, facts);
    let bz = setup.block(z, root, facts);
    assert forall|i: int|
        0 <= i < steps.len() && (#[trigger] steps[i]).action is WriteText implies !idle.site(
        root,
        steps[i].action.target(),
    ) by {
        let a = steps[i].action;
        let p = a.target();
        if idle.site(root, p) {
            if i < bx.len() {
                assert(steps[i] == bx[i]);
                lemma_foreign(active, idle, root, a, p);
            } else if i < bx.len() + by.len() {
                assert(steps[i] == by[i - bx.len()]);
            } else {
                assert(steps[i] == bz[i - bx.len() - by.len()]);
                lemma_foreign(z, idle, root, a, p);
            }
        }
    }
}

/// Disable semantics. An install with the sidebar off restores both
/// layouts of the sidebar: each entry file holds what its backup held, and
/// neither backup nor directory of patch files is left. This holds whether
/// the manager is on or off.
pub proof fn lemma_disabled_sidebar(setup: Setup, w: World, root: PathView, s: Subsystem)
    requires
        !setup.sidebar.enabled,
        s != Subsystem::Manager,
    ensures
        ({
            let after = setup.installed(w, root);
            &&& !after.has(s.panel_of(root))
            &&& !after.has(s.backup_of(root))
            &&& after.at(s.entry_of(root)) == (if w.is_file(s.backup_of(root)) {
                w.at(s.backup_of(root))
            } else {
                w.at(s.entry_of(root))
            })
        }),
{
    lemma_install_projection(setup, w, root, s);
    lemma_site_apart(s, root);
    lemma_restore_effect(s, root, w);
    assert(s.site(root, s.panel_of(root)));
    assert(s.site(root, s.backup_of(root)));
    assert(s.site(root, s.entry_of(root)));
}

/// A backup is never overwritten. Where a subsystem that an install
/// deploys has a backup already, the install leaves that backup as it is.
pub proof fn lemma_backup_kept(setup: Setup, w: World, root: PathView, s: Subsystem)
    requires
        setup.deploys(s),
        w.has(s.backup_of(root)),
    ensures
        setup.installed(w, root).at(s.backup_of(root)) == w.at(s.backup_of(root)),
{
    lemma_install_projection(setup, w, root, s);
    lemma_deploy_effect(s, root, w, setup.files, setup.json_for(s));
    assert(s.site(root, s.backup_of(root)));
}

/// An uninstall restores every subsystem, whatever layout is in use: each
/// entry file holds what its backup held, and neither backup nor directory
/// of patch files is left. A second uninstall changes nothing of them.
pub proof fn lemma_uninstall_restores(w: World, root: PathView, s: Subsystem)
    ensures
        ({
            let once = uninstalled(w, root);
            &&& !once.has(s.panel_of(root))
            &&& !once.has(s.backup_of(root))
            &&& once.at(s.entry_of(root)) == (if w.is_file(s.backup_of(root)) {
                w.at(s.backup_of(root))
            } else {
                w.at(s.entry_of(root))
            })
            &&& site_equal(uninstalled(once, root), once, s, root)
        }),
{
    let once = uninstalled(w, root);
    lemma_site_apart(s, root);
    lemma_uninstall_projection(w, root, s);
    lemma_uninstall_projection(once, root, s);
    lemma_restore_effect(s, root, w);
    assert(s.site(root, s.panel_of(root)));
    assert(s.site(root, s.backup_of(root)));
    assert(s.site(root, s.entry_of(root)));
    let again = s.restore_steps(root, s.observed(once, root));
    assert(again =~= Seq::<StepView>::empty());
    lemma_run_none(once);
}

/// A reconfiguration writes the configurations that exist and nothing
/// else: every other path holds what it held.
pub proof fn lemma_update_writes_configurations(
    w: World,
    root: PathView,
    sidebar_json: Seq<char>,
    manager_json: Seq<char>,
    p: PathView,
)
    requires
        p != Subsystem::LegacySidebar.config_of(root),
        p != Subsystem::ModernSidebar.config_of(root),
        p != Subsystem::Manager.config_of(root),
    ensures
        w.run(update_steps(root, observed(w, root), sidebar_json, manager_json)).at(p) == w.at(p),
{
    let facts = observed(w, root);
    let steps = update_steps(root, facts, sidebar_json, manager_json);
    let a = reconfigure_steps(Subsystem::LegacySidebar, root, facts.legacy.config, sidebar_json);
    let b = reconfigure_steps(Subsystem::ModernSidebar, root, facts.modern.config, sidebar_json);
    let c = reconfigure_steps(Subsystem::Manager, root, facts.manager.config, manager_json);
    assert(steps == a + b + c);
    assert forall|i: int| 0 <= i < steps.len() implies !(#[trigger] steps[i]).action.touches(p) by {
        if i < a.len() {
            assert(steps[i] == a[i]);
        } else if i < a.len() + b.len() {
            assert(steps[i] == b[i - a.len()]);
        } else {
            assert(steps[i] == c[i - a.len() - b.len()]);
        }
    }
    lemma_run_frame(w, steps, p);
}

/// Damage is bounded. However far the steps of a subsystem's block got
/// before one failed, the files of the other subsystems are as they were,
/// backups included.
pub proof fn lemma_damage_is_bounded(
    w: World,
    root: PathView,
    s: Subsystem,
    other: Subsystem,
    facts: SiteFacts,
    deploy: bool,
    files: Seq<(Seq<char>, Seq<char>)>,
    json: Seq<char>,
    done: int,
)
    requires
        s != other,
        0 <= done <= s.block(root, facts, deploy, files, json).len(),
    ensures
        site_equal(w.run(s.block(root, facts, deploy, files, json).take(done)), w, other, root),
{
    let steps = s.block(root, facts, deploy, files, json);
    lemma_block_owned(s, root, facts, deploy, files, json);
    assert(s.owns_all(root, steps.take(done))) by {
        assert forall|i: int| 0 <= i < steps.take(done).len() implies s.owns(
            root,
            (#[trigger] steps.take(done)[i]).action,
        ) by {
            assert(steps.take(done)[i] == steps[i]);
        }
    }
    lemma_foreign_run(s, other, root, w, steps.take(done));
}

/// A deploy that fails midway leaves the backup of its own entry file as
/// the backup step left it: no later step touches it.
pub proof fn lemma_backup_survives(
    w: World,
    root: PathView,
    s: Subsystem,
    facts: SiteFacts,
    files: Seq<(Seq<char>, Seq<char>)>,
    json: Seq<char>,
    done: int,
)
    requires
        0 <= done <= (s.open_steps(root, facts) + s.files_steps(root, files).push(
            s.config_step(root, json),
        )).len(),
    ensures
        w.run(
            (s.open_steps(root, facts) + s.files_steps(root, files).push(
                s.config_step(root, json),
            )).take(done),
        ).at(s.backup_of(root)) == w.at(s.backup_of(root)),
{
    let open = s.open_steps(root, facts);
    let body = s.files_steps(root, files).push(s.config_step(root, json));
    let steps = open + body;
    lemma_block_owned(s, root, facts, true, files, json);
    lemma_files_build(s, root, files);
    assert forall|i: int| 0 <= i < steps.take(done).len() implies s.owns(
        root,
        (#[trigger] steps.take(done)[i]).action,
    ) && (builds(steps.take(done)[i].action) || steps.take(done)[i].action is RemoveTree) by {
        assert(steps.take(done)[i] == steps[i]);
        if i < open.len() {
            assert(steps[i] == open[i]);
        } else {
            assert(steps[i] == body[i - open.len()]);
            if i - open.len() < body.len() - 1 {
                assert(body[i - open.len()] == s.files_steps(root, files)[i - open.len()]);
            }
        }
    }
    lemma_spares_backup(s, root, steps.take(done), w);
}

/// What an install leaves of a subsystem that it deploys, file by file. In
/// the directory of patch files there is the configuration, each file that
/// the bundle brings with its content at its place, the directories that
/// these need, and nothing else: no file of an earlier deploy survives.
pub proof fn lemma_install_deploys(
    setup: Setup,
    w: World,
    root: PathView,
    s: Subsystem,
    p: PathView,
)
    requires
        w.closed(),
        setup.deploys(s),
        p.within(s.panel_of(root)),
    ensures
        setup.installed(w, root).at(p) == s.deployed_at(root, setup.files, setup.json_for(s), p),
{
    lemma_install_projection(setup, w, root, s);
    if !w.has(s.panel_of(root)) {
        lemma_closed_hollow(w, s.panel_of(root));
    }
    lemma_deploy_leaves(s, root, w, setup.files, setup.json_for(s), p);
    assert(s.site(root, p));
}

/// What an install leaves of the entry file of a subsystem that it
/// deploys: the content that the bundle brings for it, or, where it brings
/// none, what was there.
pub proof fn lemma_install_brings_entry(setup: Setup, w: World, root: PathView, s: Subsystem)
    requires
        setup.deploys(s),
    ensures
        setup.installed(w, root).at(s.entry_of(root)) == (match s.brought(
            root,
            setup.files,
            s.entry_of(root),
        ) {
            Some(content) => Some(Node::File(encode_utf8(content))),
            None => w.at(s.entry_of(root)),
        }),
{
    lemma_install_projection(setup, w, root, s);
    lemma_deploy_leaves_entry(s, root, w, setup.files, setup.json_for(s));
    assert(s.site(root, s.entry_of(root)));
}

} // verus!
