//! The daemon's main loop decisions: what each action handed over by the IPC
//! side does to the state, and what the main loop must do for it.
use vstd::prelude::*;
use crate::cli::{ipc_for, NovaCommand};
use crate::ipc::{carried_out, dispatched, IpcAction, IpcCommand};
use crate::renderer::{addresses, config_instance_seq, config_instances, instance_views};
use crate::state::AppState;

verus! {

/// What the main loop does for an action.
#[derive(Debug, Clone, PartialEq, Eq)]
pub enum DaemonEffect {
    /// Re-read the config file (keeping the old config if that fails), then re-render
    ReloadConfig,
    /// Re-read and re-apply the stylesheets
    ReloadCss,
    Toggle(String),
    Show(String),
    Hide(String),
    /// Moving a widget is not supported: the request is only reported
    MoveUnsupported { target: String, x: i32, y: i32 },
    /// The state was updated; nothing else to do
    Nothing,
    /// Leave the main loop
    Quit,
}

/// The effect of an action, and the active profile afterwards.
pub open spec fn action_outcome(a: IpcAction, profile: Seq<char>, e: DaemonEffect, new_profile: Seq<char>) -> bool {
    match a {
        IpcAction::Reload => e == DaemonEffect::ReloadConfig && new_profile == profile,
        IpcAction::ReloadCss => e == DaemonEffect::ReloadCss && new_profile == profile,
        IpcAction::Toggle(t) => e matches DaemonEffect::Toggle(x) && x@ == t@ && new_profile == profile,
        IpcAction::Show(t) => e matches DaemonEffect::Show(x) && x@ == t@ && new_profile == profile,
        IpcAction::Hide(t) => e matches DaemonEffect::Hide(x) && x@ == t@ && new_profile == profile,
        IpcAction::Move { target, x, y } => e matches DaemonEffect::MoveUnsupported { target: t2, x: x2, y: y2 }
            && t2@ == target@ && x2 == x && y2 == y && new_profile == profile,
        IpcAction::SetProfile(n) => e == DaemonEffect::Nothing && new_profile == n@,
        IpcAction::Quit => e == DaemonEffect::Quit && new_profile == profile,
    }
}

/// How a show, hide or toggle request changes an instance's visibility.
#[derive(Debug, Clone, Copy, PartialEq, Eq, Structural)]
pub enum VisibilityRequest {
    Show,
    Hide,
    Toggle,
}

/// The visibility a request gives instance `id` (starting as `start`), read
/// against the visibility map before the request.
pub open spec fn requested(mode: VisibilityRequest, old: Map<Seq<char>, bool>, id: Seq<char>, start: bool) -> bool {
    match mode {
        VisibilityRequest::Show => true,
        VisibilityRequest::Hide => false,
        VisibilityRequest::Toggle => !(if old.contains_key(id) { old[id] } else { start }),
    }
}

/// The visibility map after a request for `target` (a widget id or a screen
/// name): every running instance it addresses gets the requested visibility.
pub open spec fn revised(
    old: Map<Seq<char>, bool>,
    insts: Seq<(Seq<char>, Seq<char>, bool)>,
    target: Seq<char>,
    mode: VisibilityRequest,
) -> Map<Seq<char>, bool>
    decreases insts.len(),
{
    if insts.len() == 0 {
        old
    } else {
        let r = revised(old, insts.drop_last(), target, mode);
        let x = insts.last();
        if addresses(x, target) {
            r.insert(x.1, requested(mode, old, x.1, x.2))
        } else {
            r
        }
    }
}

/// The visibility map after an action.
pub open spec fn visibility_after(a: IpcAction, old: Map<Seq<char>, bool>, insts: Seq<(Seq<char>, Seq<char>, bool)>) -> Map<Seq<char>, bool> {
    match a {
        IpcAction::Show(t) => revised(old, insts, t@, VisibilityRequest::Show),
        IpcAction::Hide(t) => revised(old, insts, t@, VisibilityRequest::Hide),
        IpcAction::Toggle(t) => revised(old, insts, t@, VisibilityRequest::Toggle),
        _ => old,
    }
}

/// The map `m` with the (id, visibility) pairs `u` recorded in order.
pub open spec fn with_updates(m: Map<Seq<char>, bool>, u: Seq<(Seq<char>, bool)>) -> Map<Seq<char>, bool>
    decreases u.len(),
{
    if u.len() == 0 {
        m
    } else {
        with_updates(m, u.drop_last()).insert(u.last().0, u.last().1)
    }
}

pub open spec fn update_views(u: Seq<(String, bool)>) -> Seq<(Seq<char>, bool)> {
    u.map_values(|x: (String, bool)| (x.0@, x.1))
}

impl AppState {
    /// Apply one action from the IPC side: a profile switch updates the
    /// state here; everything else is handed to the main loop.
    pub fn apply_action(&mut self, action: IpcAction) -> (e: DaemonEffect)
        ensures
            action_outcome(action, old(self).active_profile@, e, final(self).active_profile@),
            final(self).config_path == old(self).config_path,
            final(self).config == old(self).config,
            final(self).css_loaded == old(self).css_loaded,
            final(self).active_screens == old(self).active_screens,
            final(self).widget_registry == old(self).widget_registry,
            final(self).widget_visibility@ == visibility_after(action, old(self).widget_visibility@, config_instance_seq(old(self).config)),
            final(self).profiles == old(self).profiles,
            final(self).running == old(self).running,
    {
        match action {
            IpcAction::Reload => DaemonEffect::ReloadConfig,
            IpcAction::ReloadCss => DaemonEffect::ReloadCss,
            IpcAction::Toggle(t) => {
                self.revise_visibility(t.as_str(), VisibilityRequest::Toggle);
                DaemonEffect::Toggle(t)
            },
            IpcAction::Show(t) => {
                self.revise_visibility(t.as_str(), VisibilityRequest::Show);
                DaemonEffect::Show(t)
            },
            IpcAction::Hide(t) => {
                self.revise_visibility(t.as_str(), VisibilityRequest::Hide);
                DaemonEffect::Hide(t)
            },
            IpcAction::Move { target, x, y } => DaemonEffect::MoveUnsupported { target, x, y },
            IpcAction::SetProfile(name) => {
                self.active_profile = name;
                DaemonEffect::Nothing
            },
            IpcAction::Quit => DaemonEffect::Quit,
        }
    }

    /// Record the visibility a request for `target` gives the running
    /// instances it addresses.
    fn revise_visibility(&mut self, target: &str, mode: VisibilityRequest)
        ensures
            final(self).widget_visibility@ == revised(old(self).widget_visibility@, config_instance_seq(old(self).config), target@, mode),
            final(self).config_path == old(self).config_path,
            final(self).config == old(self).config,
            final(self).css_loaded == old(self).css_loaded,
            final(self).active_screens == old(self).active_screens,
            final(self).widget_registry == old(self).widget_registry,
            final(self).profiles == old(self).profiles,
            final(self).active_profile == old(self).active_profile,
            final(self).running == old(self).running,
    {
        let insts = config_instances(&self.config);
        let ghost iv = instance_views(insts@);
        let ghost old_m = self.widget_visibility@;
        let mut updates: Vec<(String, bool)> = Vec::new();
        let mut i: usize = 0;
        while i < insts.len()
            invariant
                i <= insts@.len(),
                iv == instance_views(insts@),
                old_m == self.widget_visibility@,
                with_updates(old_m, update_views(updates@)) == revised(old_m, iv.take(i as int), target@, mode),
            decreases insts.len() - i,
        {
            proof {
                assert(iv.take(i as int + 1).drop_last() =~= iv.take(i as int));
                assert(iv.take(i as int + 1).last() == iv[i as int]);
                assert(iv[i as int] == (insts@[i as int].0@, insts@[i as int].1@, insts@[i as int].2));
            }
            if crate::text::str_eq(insts[i].1.as_str(), target) || crate::text::str_eq(insts[i].0.as_str(), target) {
                let v = match mode {
                    VisibilityRequest::Show => true,
                    VisibilityRequest::Hide => false,
                    VisibilityRequest::Toggle => !self.instance_shown(insts[i].1.as_str(), insts[i].2),
                };
                let ghost before = update_views(updates@);
                updates.push((insts[i].1.clone(), v));
                proof {
                    assert(update_views(updates@) =~= before.push((insts@[i as int].1@, v)));
                    assert(update_views(updates@).drop_last() =~= before);
                }
            }
            i = i + 1;
        }
        proof {
            assert(iv.take(i as int) =~= iv);
        }
        let mut j: usize = 0;
        while j < updates.len()
            invariant
                j <= updates@.len(),
                self.widget_visibility@ == with_updates(old_m, update_views(updates@).take(j as int)),
                self.config_path == old(self).config_path,
                self.config == old(self).config,
                self.css_loaded == old(self).css_loaded,
                self.active_screens == old(self).active_screens,
                self.widget_registry == old(self).widget_registry,
                self.profiles == old(self).profiles,
                self.active_profile == old(self).active_profile,
                self.running == old(self).running,
            decreases updates.len() - j,
        {
            proof {
                assert(update_views(updates@).take(j as int + 1).drop_last() =~= update_views(updates@).take(j as int));
                assert(update_views(updates@).take(j as int + 1).last() == (updates@[j as int].0@, updates@[j as int].1));
            }
            self.set_visible(updates[j].0.as_str(), updates[j].1);
            j = j + 1;
        }
        proof {
            assert(update_views(updates@).take(j as int) =~= update_views(updates@));
        }
    }
}

/// What the main loop ends up doing for a subcommand of `nova`.
pub open spec fn effect_of_command(cmd: NovaCommand, profile: Seq<char>, e: DaemonEffect, new_profile: Seq<char>) -> bool {
    match cmd {
        NovaCommand::Daemon { .. } => e == DaemonEffect::ReloadConfig && new_profile == profile,
        NovaCommand::Reload => e == DaemonEffect::ReloadConfig && new_profile == profile,
        NovaCommand::ReloadCss => e == DaemonEffect::ReloadCss && new_profile == profile,
        NovaCommand::Toggle { target } => e matches DaemonEffect::Toggle(x) && x@ == target@ && new_profile == profile,
        NovaCommand::Show { target } => e matches DaemonEffect::Show(x) && x@ == target@ && new_profile == profile,
        NovaCommand::Hide { target } => e matches DaemonEffect::Hide(x) && x@ == target@ && new_profile == profile,
        NovaCommand::Move { target, x, y } => e matches DaemonEffect::MoveUnsupported { target: t, x: ex, y: ey }
            && t@ == target@ && ex == x && ey == y && new_profile == profile,
        NovaCommand::SetProfile { name } => e == DaemonEffect::Nothing && new_profile == name@,
        NovaCommand::List => false,
        NovaCommand::Quit => e == DaemonEffect::Quit && new_profile == profile,
    }
}

/// A subcommand sent from the command line reaches the main loop as the same
/// request: `nova toggle <id>` toggles `<id>`, `nova set-profile <name>`
/// makes `<name>` the active profile, and so on; `nova list` is answered by
/// the IPC side, and a show, hide or toggle of a target no running instance
/// answers to is refused: neither hands the main loop anything.
pub proof fn law_command_reaches_main_loop(
    cmd: NovaCommand,
    ipc: IpcCommand,
    insts: Seq<(Seq<char>, Seq<char>, bool)>,
    action: Option<IpcAction>,
    profile: Seq<char>,
    e: DaemonEffect,
    new_profile: Seq<char>,
)
    requires
        ipc_for(cmd, ipc),
        dispatched(ipc, insts, action),
        action matches Some(a) ==> action_outcome(a, profile, e, new_profile),
    ensures
        cmd is List ==> action is None,
        carried_out(ipc, insts) && !(cmd is List) ==> action is Some,
        !carried_out(ipc, insts) ==> action is None,
        action is Some ==> effect_of_command(cmd, profile, e, new_profile),
{
}

/// After a request, an id that some addressed instance has holds the
/// requested visibility of the last such instance.
proof fn lemma_revised_addressed(
    old: Map<Seq<char>, bool>,
    insts: Seq<(Seq<char>, Seq<char>, bool)>,
    target: Seq<char>,
    mode: VisibilityRequest,
    i: int,
)
    requires
        0 <= i < insts.len(),
        addresses(insts[i], target),
    ensures
        revised(old, insts, target, mode).contains_key(insts[i].1),
        exists|k: int| 0 <= k < insts.len() && addresses(#[trigger] insts[k], target) && insts[k].1 == insts[i].1
            && revised(old, insts, target, mode)[insts[i].1] == requested(mode, old, insts[i].1, insts[k].2),
    decreases insts.len(),
{
    let last = insts.len() - 1;
    if i < last {
        let t = insts.drop_last();
        assert(t[i] == insts[i]);
        if addresses(insts[last], target) && insts[last].1 == insts[i].1 {
            assert(addresses(insts[last], target) && insts[last].1 == insts[i].1);
        } else {
            lemma_revised_addressed(old, t, target, mode, i);
            let k = choose|k: int| 0 <= k < t.len() && addresses(#[trigger] t[k], target) && t[k].1 == t[i].1
                && revised(old, t, target, mode)[t[i].1] == requested(mode, old, t[i].1, t[k].2);
            assert(insts[k] == t[k]);
        }
    }
}

/// After a request, an id that no addressed instance has keeps its recorded
/// visibility (or stays unrecorded).
proof fn lemma_revised_spares(
    old: Map<Seq<char>, bool>,
    insts: Seq<(Seq<char>, Seq<char>, bool)>,
    target: Seq<char>,
    mode: VisibilityRequest,
    id: Seq<char>,
)
    requires
        forall|i: int| 0 <= i < insts.len() && addresses(#[trigger] insts[i], target) ==> insts[i].1 != id,
    ensures
        revised(old, insts, target, mode).contains_key(id) == old.contains_key(id),
        old.contains_key(id) ==> revised(old, insts, target, mode)[id] == old[id],
    decreases insts.len(),
{
    if insts.len() > 0 {
        let t = insts.drop_last();
        assert forall|i: int| 0 <= i < t.len() && addresses(#[trigger] t[i], target) implies t[i].1 != id by {
            assert(t[i] == insts[i]);
        }
        lemma_revised_spares(old, t, target, mode, id);
        let last = insts.len() - 1;
        if addresses(insts[last], target) {
            assert(insts[last].1 != id);
        }
    }
}

/// `nova show <target>` shows, and `nova hide <target>` hides, every running
/// instance the target names (by id, or all of a screen's by its name).
pub proof fn law_show_hide_reach_targets(
    old: Map<Seq<char>, bool>,
    insts: Seq<(Seq<char>, Seq<char>, bool)>,
    target: Seq<char>,
    i: int,
)
    requires
        0 <= i < insts.len(),
        addresses(insts[i], target),
    ensures
        revised(old, insts, target, VisibilityRequest::Show).contains_key(insts[i].1),
        revised(old, insts, target, VisibilityRequest::Show)[insts[i].1],
        revised(old, insts, target, VisibilityRequest::Hide).contains_key(insts[i].1),
        !revised(old, insts, target, VisibilityRequest::Hide)[insts[i].1],
{
    lemma_revised_addressed(old, insts, target, VisibilityRequest::Show, i);
    lemma_revised_addressed(old, insts, target, VisibilityRequest::Hide, i);
}

/// `nova toggle <target>` flips every running instance the target names
/// (when instances sharing an id also share their starting visibility).
pub proof fn law_toggle_flips_targets(
    old: Map<Seq<char>, bool>,
    insts: Seq<(Seq<char>, Seq<char>, bool)>,
    target: Seq<char>,
    i: int,
)
    requires
        0 <= i < insts.len(),
        addresses(insts[i], target),
        forall|k: int| 0 <= k < insts.len() && #[trigger] insts[k].1 == insts[i].1 ==> insts[k].2 == insts[i].2,
    ensures
        revised(old, insts, target, VisibilityRequest::Toggle).contains_key(insts[i].1),
        revised(old, insts, target, VisibilityRequest::Toggle)[insts[i].1]
            == !(if old.contains_key(insts[i].1) { old[insts[i].1] } else { insts[i].2 }),
{
    lemma_revised_addressed(old, insts, target, VisibilityRequest::Toggle, i);
}

/// A show, hide or toggle leaves every widget id it does not name as it was.
pub proof fn law_request_spares_others(
    old: Map<Seq<char>, bool>,
    insts: Seq<(Seq<char>, Seq<char>, bool)>,
    target: Seq<char>,
    mode: VisibilityRequest,
    id: Seq<char>,
)
    requires
        forall|i: int| 0 <= i < insts.len() && addresses(#[trigger] insts[i], target) ==> insts[i].1 != id,
    ensures
        revised(old, insts, target, mode).contains_key(id) == old.contains_key(id),
        old.contains_key(id) ==> revised(old, insts, target, mode)[id] == old[id],
{
    lemma_revised_spares(old, insts, target, mode, id);
}

} // verus!
