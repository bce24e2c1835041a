//! The command line: what the user asked for, and the IPC command it becomes.
use vstd::prelude::*;
use crate::ipc::IpcCommand;

verus! {

/// Parsed command line of `nova`.
#[derive(Debug, Clone)]
pub struct NovaCli {
    /// Subcommand to execute. If omitted, starts the daemon.
    pub command: Option<NovaCommand>,
    /// Path to config file (overrides default search)
    pub config: Option<String>,
    /// Log level: error, warn, info, debug, trace
    pub log_level: String,
    /// IPC socket path override
    pub socket: Option<String>,
}

/// Subcommands of `nova`.
#[derive(Debug, Clone)]
pub enum NovaCommand {
    /// Start the NovaShell daemon (default if no subcommand given)
    Daemon { foreground: bool },
    /// Reload the full configuration and re-render all widgets
    Reload,
    /// Reload only the CSS stylesheets without restarting widgets
    ReloadCss,
    /// Toggle visibility of a widget or screen by ID
    Toggle { target: String },
    /// Show a hidden widget or screen by ID
    Show { target: String },
    /// Hide a visible widget or screen by ID
    Hide { target: String },
    /// Move a widget to a new position
    Move { target: String, x: i32, y: i32 },
    /// Switch to a named configuration profile
    SetProfile { name: String },
    /// List all active widgets and their states
    List,
    /// Gracefully quit the running daemon
    Quit,
}

/// Whether the command line starts the daemon (no subcommand, or `daemon`).
pub open spec fn starts_daemon(command: Option<NovaCommand>) -> bool {
    command matches None || command matches Some(NovaCommand::Daemon { .. })
}

/// Whether this command line starts the daemon rather than sending a command to it.
pub fn runs_daemon(cli: &NovaCli) -> (b: bool)
    ensures
        b == starts_daemon(cli.command),
{
    match &cli.command {
        None => true,
        Some(NovaCommand::Daemon { .. }) => true,
        Some(_) => false,
    }
}

/// The IPC command a subcommand sends (`daemon` is never sent; it maps to `Reload`).
pub open spec fn ipc_for(cmd: NovaCommand, ipc: IpcCommand) -> bool {
    match cmd {
        NovaCommand::Daemon { .. } => ipc is Reload,
        NovaCommand::Reload => ipc is Reload,
        NovaCommand::ReloadCss => ipc is ReloadCss,
        NovaCommand::Toggle { target } => ipc matches IpcCommand::Toggle { target: t } && t@ == target@,
        NovaCommand::Show { target } => ipc matches IpcCommand::Show { target: t } && t@ == target@,
        NovaCommand::Hide { target } => ipc matches IpcCommand::Hide { target: t } && t@ == target@,
        NovaCommand::Move { target, x, y } => ipc matches IpcCommand::Move { target: t, x: ix, y: iy }
            && t@ == target@ && ix == x && iy == y,
        NovaCommand::SetProfile { name } => ipc matches IpcCommand::SetProfile { name: n } && n@ == name@,
        NovaCommand::List => ipc is ListWidgets,
        NovaCommand::Quit => ipc is Quit,
    }
}

/// Translate a subcommand into the IPC command the daemon understands.
pub fn cli_to_ipc(cmd: &NovaCommand) -> (r: IpcCommand)
    ensures
        ipc_for(*cmd, r),
{
    match cmd {
        NovaCommand::Daemon { .. } => IpcCommand::Reload,
        NovaCommand::Reload => IpcCommand::Reload,
        NovaCommand::ReloadCss => IpcCommand::ReloadCss,
        NovaCommand::Toggle { target } => IpcCommand::Toggle { target: target.clone() },
        NovaCommand::Show { target } => IpcCommand::Show { target: target.clone() },
        NovaCommand::Hide { target } => IpcCommand::Hide { target: target.clone() },
        NovaCommand::Move { target, x, y } => IpcCommand::Move { target: target.clone(), x: *x, y: *y },
        NovaCommand::SetProfile { name } => IpcCommand::SetProfile { name: name.clone() },
        NovaCommand::List => IpcCommand::ListWidgets,
        NovaCommand::Quit => IpcCommand::Quit,
    }
}

} // verus!
