//! The IPC protocol between the CLI and the daemon: commands, responses,
//! the socket's location, and what the daemon answers to each command.
use vstd::prelude::*;
use crate::paths::{join, join_path};
use crate::renderer::{config_instance_seq, config_instances, instance_views, target_known};
use crate::state::AppState;
use crate::text::{concat, concat3, dec, dec_int, i64_to_string, push_str, u64_to_string};

verus! {

/// Commands sent from the CLI to the daemon.
#[derive(Debug, Clone, PartialEq, Eq)]
pub enum IpcCommand {
    /// Reload the full config and re-render all widgets
    Reload,
    /// Reload only CSS stylesheets
    ReloadCss,
    /// Toggle visibility of a widget or screen
    Toggle { target: String },
    /// Show a hidden widget or screen
    Show { target: String },
    /// Hide a visible widget or screen
    Hide { target: String },
    /// Move a widget to a new absolute position
    Move { target: String, x: i32, y: i32 },
    /// Switch to a named configuration profile
    SetProfile { name: String },
    /// List all active widgets and their visibility states
    ListWidgets,
    /// Gracefully shut down the daemon
    Quit,
}

/// One entry of the widget list a `ListWidgets` response carries.
#[derive(Debug, Clone, PartialEq, Eq)]
pub struct WidgetStatus {
    pub id: String,
    pub visible: bool,
}

/// The daemon's answer to a command.
#[derive(Debug, Clone, PartialEq, Eq)]
pub struct IpcResponse {
    /// Whether the command was processed successfully
    pub ok: bool,
    /// Human-readable status message
    pub message: String,
    /// Structured payload (the widget list of `ListWidgets`)
    pub data: Option<Vec<WidgetStatus>>,
}

impl IpcResponse {
    /// A successful response with a message.
    pub fn ok(message: String) -> (r: Self)
        ensures
            r.ok,
            r.message@ == message@,
            r.data is None,
    {
        IpcResponse { ok: true, message, data: None }
    }

    /// A successful response with a message and a widget list.
    pub fn ok_data(message: String, data: Vec<WidgetStatus>) -> (r: Self)
        ensures
            r.ok,
            r.message@ == message@,
            r.data == Some(data),
    {
        IpcResponse { ok: true, message, data: Some(data) }
    }

    /// An error response.
    pub fn err(message: String) -> (r: Self)
        ensures
            !r.ok,
            r.message@ == message@,
            r.data is None,
    {
        IpcResponse { ok: false, message, data: None }
    }
}

/// Actions the IPC side hands to the GTK main loop.
#[derive(Debug, Clone, PartialEq, Eq)]
pub enum IpcAction {
    Reload,
    ReloadCss,
    Toggle(String),
    Show(String),
    Hide(String),
    Move { target: String, x: i32, y: i32 },
    SetProfile(String),
    Quit,
}

/// Location of the IPC socket: `nova.sock` in the runtime directory when
/// `$XDG_RUNTIME_DIR` is set, else `/tmp/novashell-<uid>.sock`.
pub open spec fn socket_location(runtime_dir: Option<Seq<char>>, uid: nat) -> Seq<char> {
    match runtime_dir {
        Some(d) => join(d, "nova.sock"@),
        None => "/tmp/novashell-"@ + dec(uid) + ".sock"@,
    }
}

/// The characters of an optional string.
pub open spec fn opt_view(o: Option<&str>) -> Option<Seq<char>> {
    match o {
        Some(d) => Some(d@),
        None => None,
    }
}

/// The IPC socket path, given the value of `$XDG_RUNTIME_DIR` (if set) and
/// the user id.
pub fn socket_path(runtime_dir: Option<&str>, uid: u32) -> (p: String)
    ensures
        p@ == socket_location(opt_view(runtime_dir), uid as nat),
{
    match runtime_dir {
        Some(d) => join_path(d, "nova.sock"),
        None => {
            let mut p = "/tmp/novashell-".to_owned();
            push_str(&mut p, u64_to_string(uid as u64).as_str());
            push_str(&mut p, ".sock");
            p
        },
    }
}

/// The widget or screen a show, hide or toggle command is for.
pub open spec fn cmd_target(cmd: IpcCommand) -> Option<Seq<char>> {
    match cmd {
        IpcCommand::Toggle { target } => Some(target@),
        IpcCommand::Show { target } => Some(target@),
        IpcCommand::Hide { target } => Some(target@),
        _ => None,
    }
}

/// Whether the daemon carries `cmd` out: a show, hide or toggle only when
/// some running instance answers to its target (by id or screen name).
pub open spec fn carried_out(cmd: IpcCommand, insts: Seq<(Seq<char>, Seq<char>, bool)>) -> bool {
    match cmd_target(cmd) {
        Some(t) => target_known(insts, t),
        None => true,
    }
}

/// The action `cmd` hands to the main loop: none for `ListWidgets`, which
/// the daemon answers by itself, and none for a target nothing answers to.
pub open spec fn dispatched(cmd: IpcCommand, insts: Seq<(Seq<char>, Seq<char>, bool)>, a: Option<IpcAction>) -> bool {
    if !carried_out(cmd, insts) {
        a is None
    } else {
        match cmd {
            IpcCommand::Reload => a == Some(IpcAction::Reload),
            IpcCommand::ReloadCss => a == Some(IpcAction::ReloadCss),
            IpcCommand::Toggle { target } => a matches Some(IpcAction::Toggle(t)) && t@ == target@,
            IpcCommand::Show { target } => a matches Some(IpcAction::Show(t)) && t@ == target@,
            IpcCommand::Hide { target } => a matches Some(IpcAction::Hide(t)) && t@ == target@,
            IpcCommand::Move { target, x, y } => a matches Some(IpcAction::Move { target: t, x: ax, y: ay })
                && t@ == target@ && ax == x && ay == y,
            IpcCommand::SetProfile { name } => a matches Some(IpcAction::SetProfile(n)) && n@ == name@,
            IpcCommand::ListWidgets => a is None,
            IpcCommand::Quit => a == Some(IpcAction::Quit),
        }
    }
}

/// The message the daemon answers a carried-out `cmd` with, when `n`
/// widget instances are running.
pub open spec fn reply_message(cmd: IpcCommand, n: nat) -> Seq<char> {
    match cmd {
        IpcCommand::Reload => "Reload triggered"@,
        IpcCommand::ReloadCss => "CSS reload triggered"@,
        IpcCommand::Toggle { target } => "Toggle '"@ + target@ + "'"@,
        IpcCommand::Show { target } => "Show '"@ + target@ + "'"@,
        IpcCommand::Hide { target } => "Hide '"@ + target@ + "'"@,
        IpcCommand::Move { target, x, y } => "Move '"@ + target@ + "' to ("@ + dec_int(x as int) + ","@
            + dec_int(y as int) + ")"@,
        IpcCommand::SetProfile { name } => "Profile set to '"@ + name@ + "'"@,
        IpcCommand::ListWidgets => dec(n) + " widgets"@,
        IpcCommand::Quit => "Shutting down"@,
    }
}

/// The answer to a show, hide or toggle of a target nothing answers to.
pub open spec fn not_found(target: Seq<char>) -> Seq<char> {
    "Widget '"@ + target + "' not found"@
}

/// `list` reports every running widget instance, in configuration order,
/// with whether it is shown now.
pub open spec fn lists_widgets(state: AppState, list: Seq<WidgetStatus>) -> bool {
    let insts = config_instance_seq(state.config);
    &&& list.len() == insts.len()
    &&& forall|i: int| 0 <= i < list.len() ==> (#[trigger] list[i]).id@ == insts[i].1
        && list[i].visible == state.shown(insts[i].1, insts[i].2)
}

/// The widget list of a `ListWidgets` answer.
fn widget_list(state: &AppState) -> (r: Vec<WidgetStatus>)
    ensures
        lists_widgets(*state, r@),
{
    let insts = config_instances(&state.config);
    let mut r: Vec<WidgetStatus> = Vec::new();
    let mut i: usize = 0;
    while i < insts.len()
        invariant
            i <= insts@.len(),
            instance_views(insts@) == config_instance_seq(state.config),
            r@.len() == i,
            forall|j: int| 0 <= j < i ==> (#[trigger] r@[j]).id@ == insts@[j].1@
                && r@[j].visible == state.shown(insts@[j].1@, insts@[j].2),
        decreases insts.len() - i,
    {
        let visible = state.instance_shown(insts[i].1.as_str(), insts[i].2);
        r.push(WidgetStatus { id: insts[i].1.clone(), visible });
        i = i + 1;
    }
    proof {
        let v = config_instance_seq(state.config);
        assert forall|j: int| 0 <= j < r@.len() implies (#[trigger] r@[j]).id@ == v[j].1
            && r@[j].visible == state.shown(v[j].1, v[j].2) by {
            assert(instance_views(insts@)[j] == (insts@[j].0@, insts@[j].1@, insts@[j].2));
        }
    }
    r
}

/// Whether some running instance answers to `target`.
fn target_exists(insts: &Vec<(String, String, bool)>, target: &str) -> (b: bool)
    ensures
        b == target_known(instance_views(insts@), target@),
{
    let mut i: usize = 0;
    while i < insts.len()
        invariant
            i <= insts@.len(),
            forall|j: int| 0 <= j < i ==> !crate::renderer::addresses(#[trigger] instance_views(insts@)[j], target@),
        decreases insts.len() - i,
    {
        proof {
            assert(instance_views(insts@)[i as int] == (insts@[i as int].0@, insts@[i as int].1@, insts@[i as int].2));
        }
        if crate::text::str_eq(insts[i].1.as_str(), target) || crate::text::str_eq(insts[i].0.as_str(), target) {
            return true;
        }
        i = i + 1;
    }
    false
}

/// The answer to a target nothing answers to.
fn unknown_target(target: &str) -> (r: (Option<IpcAction>, IpcResponse))
    ensures
        r.0 is None,
        !r.1.ok,
        r.1.message@ == not_found(target@),
        r.1.data is None,
{
    (None, IpcResponse::err(concat3("Widget '", target, "' not found")))
}

/// Process one command against the daemon state: the action to hand to the
/// main loop, and the response to send back.
pub fn dispatch_command(cmd: IpcCommand, state: &AppState) -> (r: (Option<IpcAction>, IpcResponse))
    ensures
        dispatched(cmd, config_instance_seq(state.config), r.0),
        r.1.ok == carried_out(cmd, config_instance_seq(state.config)),
        carried_out(cmd, config_instance_seq(state.config))
            ==> r.1.message@ == reply_message(cmd, config_instance_seq(state.config).len()),
        !carried_out(cmd, config_instance_seq(state.config)) ==> r.1.message@ == not_found(cmd_target(cmd).unwrap()),
        cmd is ListWidgets ==> (r.1.data matches Some(d) && lists_widgets(*state, d@)),
        !(cmd is ListWidgets) ==> r.1.data is None,
{
    let insts = config_instances(&state.config);
    match cmd {
        IpcCommand::Reload => (Some(IpcAction::Reload), IpcResponse::ok("Reload triggered".to_owned())),
        IpcCommand::ReloadCss => (Some(IpcAction::ReloadCss), IpcResponse::ok("CSS reload triggered".to_owned())),
        IpcCommand::Toggle { target } => {
            if !target_exists(&insts, target.as_str()) {
                return unknown_target(target.as_str());
            }
            let m = concat3("Toggle '", target.as_str(), "'");
            (Some(IpcAction::Toggle(target)), IpcResponse::ok(m))
        },
        IpcCommand::Show { target } => {
            if !target_exists(&insts, target.as_str()) {
                return unknown_target(target.as_str());
            }
            let m = concat3("Show '", target.as_str(), "'");
            (Some(IpcAction::Show(target)), IpcResponse::ok(m))
        },
        IpcCommand::Hide { target } => {
            if !target_exists(&insts, target.as_str()) {
                return unknown_target(target.as_str());
            }
            let m = concat3("Hide '", target.as_str(), "'");
            (Some(IpcAction::Hide(target)), IpcResponse::ok(m))
        },
        IpcCommand::Move { target, x, y } => {
            let mut m = concat3("Move '", target.as_str(), "' to (");
            push_str(&mut m, i64_to_string(x as i64).as_str());
            push_str(&mut m, ",");
            push_str(&mut m, i64_to_string(y as i64).as_str());
            push_str(&mut m, ")");
            (Some(IpcAction::Move { target, x, y }), IpcResponse::ok(m))
        },
        IpcCommand::SetProfile { name } => {
            let m = concat3("Profile set to '", name.as_str(), "'");
            (Some(IpcAction::SetProfile(name)), IpcResponse::ok(m))
        },
        IpcCommand::ListWidgets => {
            let list = widget_list(state);
            let m = concat(u64_to_string(list.len() as u64).as_str(), " widgets");
            (None, IpcResponse::ok_data(m, list))
        },
        IpcCommand::Quit => (Some(IpcAction::Quit), IpcResponse::ok("Shutting down".to_owned())),
    }
}

/// Client side of the IPC socket: where it connects.
#[derive(Debug, Clone)]
pub struct IpcClient {
    socket_path: String,
}

impl IpcClient {
    /// The socket path this client connects to.
    pub closed spec fn path_spec(&self) -> Seq<char> {
        self.socket_path@
    }

    /// A client for the default socket, given `$XDG_RUNTIME_DIR` (if set) and the user id.
    pub fn new(runtime_dir: Option<&str>, uid: u32) -> (c: Self)
        ensures
            c.path_spec() == socket_location(opt_view(runtime_dir), uid as nat),
    {
        IpcClient { socket_path: socket_path(runtime_dir, uid) }
    }

    /// A client for a custom socket path.
    pub fn with_path(path: String) -> (c: Self)
        ensures
            c.path_spec() == path@,
    {
        IpcClient { socket_path: path }
    }

    /// The socket path this client connects to.
    pub fn socket_path(&self) -> (p: &str)
        ensures
            p@ == self.path_spec(),
    {
        self.socket_path.as_str()
    }
}

} // verus!
