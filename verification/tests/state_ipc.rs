use indexmap::IndexMap;
use novashell_lib::cli::{cli_to_ipc, runs_daemon, NovaCli, NovaCommand};
use novashell_lib::config::schema::{GlobalSettings, NovaConfig, ScreenConfig, WidgetDefaults, WidgetInstance};
use novashell_lib::daemon::DaemonEffect;
use novashell_lib::error::NovaError;
use novashell_lib::ipc::{dispatch_command, socket_path, IpcAction, IpcClient, IpcCommand, IpcResponse, WidgetStatus};
use novashell_lib::state::{AppState, WidgetRegistry};
use novashell_lib::widgets::WidgetDefinition;

fn def(name: &str, template: &str) -> WidgetDefinition {
    WidgetDefinition {
        name: name.to_string(),
        description: String::new(),
        template: template.to_string(),
        vars: IndexMap::new(),
        default_style: String::new(),
    }
}

/// A config with screen `main` (instances `clock` and `bar`, the latter
/// starting hidden, plus one without an id) and a disabled screen `off`.
fn desk_config() -> NovaConfig {
    let inst = |id: Option<&str>, visible: bool| {
        let mut w = WidgetInstance::default();
        w.widget = "clock".to_string();
        w.id = id.map(String::from);
        w.visible = visible;
        w
    };
    let mut main = ScreenConfig::default();
    main.widgets = vec![inst(Some("clock"), true), inst(Some("bar"), false), inst(None, true)];
    let mut off = ScreenConfig::default();
    off.enabled = false;
    off.widgets = vec![inst(Some("ghost"), true)];
    let mut screens = IndexMap::new();
    screens.insert("main".to_string(), main);
    screens.insert("off".to_string(), off);
    NovaConfig { novashell: GlobalSettings::default(), screens, defaults: WidgetDefaults::default() }
}

fn empty_config() -> NovaConfig {
    NovaConfig { novashell: GlobalSettings::default(), screens: IndexMap::new(), defaults: WidgetDefaults::default() }
}

#[test]
fn registry_register_then_get() {
    let mut r = WidgetRegistry::new();
    assert!(r.is_empty());
    r.register(def("clock2", "<label/>"));
    r.register(def("bar", "<box/>"));
    assert_eq!(r.len(), 2);
    assert_eq!(r.get("clock2").unwrap().template, "<label/>");
    assert!(r.get("missing").is_none());
    assert_eq!(r.names(), vec!["clock2".to_string(), "bar".to_string()]);
}

#[test]
fn registry_reregister_keeps_place() {
    let mut r = WidgetRegistry::new();
    r.register(def("a", "<box/>"));
    r.register(def("b", "<box/>"));
    r.register(def("a", "<label/>"));
    assert_eq!(r.len(), 2);
    assert_eq!(r.names(), vec!["a".to_string(), "b".to_string()]);
    assert_eq!(r.get("a").unwrap().template, "<label/>");
}

#[test]
fn app_state_new_defaults() {
    let s = AppState::new(empty_config(), "/tmp/c.yaml".to_string());
    assert_eq!(s.config_path, "/tmp/c.yaml");
    assert_eq!(s.profiles, vec!["default".to_string()]);
    assert_eq!(s.active_profile, "default");
    assert!(s.running);
    assert!(!s.css_loaded);
    assert!(s.widget_registry.is_empty());
}

#[test]
fn visibility_default_set_toggle() {
    let mut s = AppState::new(empty_config(), "c.yaml".to_string());
    assert!(s.is_visible("w1"));
    s.set_visible("w1", false);
    assert!(!s.is_visible("w1"));
    assert!(s.is_visible("w2"));
    s.toggle_visible("w1");
    assert!(s.is_visible("w1"));
    s.toggle_visible("w2");
    assert!(!s.is_visible("w2"));
    s.toggle_visible("w2");
    assert!(s.is_visible("w2"));
    assert!(s.is_visible("w1"));
}

#[test]
fn dispatch_messages_and_actions() {
    let s = AppState::new(desk_config(), "c.yaml".to_string());
    let (a, r) = dispatch_command(IpcCommand::Reload, &s);
    assert_eq!(a, Some(IpcAction::Reload));
    assert!(r.ok);
    assert_eq!(r.message, "Reload triggered");
    let (a, r) = dispatch_command(IpcCommand::ReloadCss, &s);
    assert_eq!(a, Some(IpcAction::ReloadCss));
    assert_eq!(r.message, "CSS reload triggered");
    let (a, r) = dispatch_command(IpcCommand::Toggle { target: "bar".to_string() }, &s);
    assert_eq!(a, Some(IpcAction::Toggle("bar".to_string())));
    assert_eq!(r.message, "Toggle 'bar'");
    let (_, r) = dispatch_command(IpcCommand::Show { target: "main".to_string() }, &s);
    assert_eq!(r.message, "Show 'main'");
    let (_, r) = dispatch_command(IpcCommand::Hide { target: "main-widget-2".to_string() }, &s);
    assert_eq!(r.message, "Hide 'main-widget-2'");
    let (a, r) = dispatch_command(IpcCommand::Move { target: "w".to_string(), x: -5, y: 12 }, &s);
    assert_eq!(a, Some(IpcAction::Move { target: "w".to_string(), x: -5, y: 12 }));
    assert_eq!(r.message, "Move 'w' to (-5,12)");
    let (a, r) = dispatch_command(IpcCommand::SetProfile { name: "night".to_string() }, &s);
    assert_eq!(a, Some(IpcAction::SetProfile("night".to_string())));
    assert_eq!(r.message, "Profile set to 'night'");
    let (a, r) = dispatch_command(IpcCommand::Quit, &s);
    assert_eq!(a, Some(IpcAction::Quit));
    assert_eq!(r.message, "Shutting down");
    assert!(r.data.is_none());
}

#[test]
fn dispatch_unknown_target_not_found() {
    let s = AppState::new(desk_config(), "c.yaml".to_string());
    for cmd in [
        IpcCommand::Toggle { target: "foo".to_string() },
        IpcCommand::Show { target: "foo".to_string() },
        IpcCommand::Hide { target: "ghost".to_string() },
    ] {
        let (a, r) = dispatch_command(cmd, &s);
        assert!(a.is_none());
        assert!(!r.ok);
        assert!(r.data.is_none());
        assert!(r.message == "Widget 'foo' not found" || r.message == "Widget 'ghost' not found");
    }
}

#[test]
fn dispatch_list_widgets() {
    let mut s = AppState::new(desk_config(), "c.yaml".to_string());
    s.widget_registry.register(def("a", "<box/>"));
    assert_eq!(s.apply_action(IpcAction::Hide("clock".to_string())), DaemonEffect::Hide("clock".to_string()));
    let (a, r) = dispatch_command(IpcCommand::ListWidgets, &s);
    assert!(a.is_none());
    assert!(r.ok);
    assert_eq!(r.message, "3 widgets");
    assert_eq!(
        r.data,
        Some(vec![
            WidgetStatus { id: "clock".to_string(), visible: false },
            WidgetStatus { id: "bar".to_string(), visible: false },
            WidgetStatus { id: "main-widget-2".to_string(), visible: true },
        ])
    );
}

#[test]
fn show_hide_toggle_update_state() {
    let mut s = AppState::new(desk_config(), "c.yaml".to_string());
    assert!(!s.instance_shown("bar", false));
    s.apply_action(IpcAction::Show("bar".to_string()));
    assert!(s.instance_shown("bar", false));
    s.apply_action(IpcAction::Hide("main".to_string()));
    assert!(!s.instance_shown("clock", true));
    assert!(!s.instance_shown("bar", false));
    assert!(!s.instance_shown("main-widget-2", true));
    s.apply_action(IpcAction::Toggle("clock".to_string()));
    assert!(s.instance_shown("clock", true));
    assert!(!s.instance_shown("bar", false));
    s.apply_action(IpcAction::Toggle("clock".to_string()));
    assert!(!s.instance_shown("clock", true));
    s.apply_action(IpcAction::Show("nothing".to_string()));
    assert!(!s.instance_shown("bar", false));
}

#[test]
fn response_constructors() {
    let r = IpcResponse::err("bad".to_string());
    assert!(!r.ok);
    assert_eq!(r.message, "bad");
    let r = IpcResponse::ok_data("1 widgets".to_string(), vec![]);
    assert!(r.ok);
    assert_eq!(r.data, Some(vec![]));
}

#[test]
fn socket_path_runtime_dir_and_fallback() {
    assert_eq!(socket_path(Some("/run/user/1000"), 1000), "/run/user/1000/nova.sock");
    assert_eq!(socket_path(Some("/run/user/7/"), 7), "/run/user/7/nova.sock");
    assert_eq!(socket_path(None, 1000), "/tmp/novashell-1000.sock");
}

#[test]
fn ipc_client_paths() {
    let c = IpcClient::new(Some("/run/user/5"), 5);
    assert_eq!(c.socket_path(), "/run/user/5/nova.sock");
    let c = IpcClient::with_path("/tmp/custom.sock".to_string());
    assert_eq!(c.socket_path(), "/tmp/custom.sock");
}

#[test]
fn cli_translation() {
    assert_eq!(cli_to_ipc(&NovaCommand::List), IpcCommand::ListWidgets);
    assert_eq!(
        cli_to_ipc(&NovaCommand::Move { target: "t".to_string(), x: 1, y: 2 }),
        IpcCommand::Move { target: "t".to_string(), x: 1, y: 2 }
    );
    assert_eq!(cli_to_ipc(&NovaCommand::SetProfile { name: "p".to_string() }), IpcCommand::SetProfile { name: "p".to_string() });
    assert_eq!(cli_to_ipc(&NovaCommand::Daemon { foreground: true }), IpcCommand::Reload);
    let cli = NovaCli { command: None, config: None, log_level: "info".to_string(), socket: None };
    assert!(runs_daemon(&cli));
    let cli = NovaCli { command: Some(NovaCommand::Quit), config: None, log_level: "info".to_string(), socket: None };
    assert!(!runs_daemon(&cli));
}

#[test]
fn daemon_actions() {
    let mut s = AppState::new(empty_config(), "c.yaml".to_string());
    assert_eq!(s.apply_action(IpcAction::Reload), DaemonEffect::ReloadConfig);
    assert_eq!(s.apply_action(IpcAction::Toggle("x".to_string())), DaemonEffect::Toggle("x".to_string()));
    assert_eq!(s.apply_action(IpcAction::SetProfile("night".to_string())), DaemonEffect::Nothing);
    assert_eq!(s.active_profile, "night");
    assert_eq!(
        s.apply_action(IpcAction::Move { target: "w".to_string(), x: 3, y: 4 }),
        DaemonEffect::MoveUnsupported { target: "w".to_string(), x: 3, y: 4 }
    );
    assert_eq!(s.apply_action(IpcAction::Quit), DaemonEffect::Quit);
}

#[test]
fn error_messages() {
    assert_eq!(NovaError::Config("x".to_string()).message(), "Configuration error: x");
    assert_eq!(NovaError::Xml("y".to_string()).message(), "XML parse error: y");
    assert_eq!(NovaError::DBus("z".to_string()).message(), "D-Bus error: z");
}

#[test]
fn command_line_requests_reach_main_loop() {
    let mut s = AppState::new(desk_config(), "/c/config.yaml".to_string());
    let (a, r) = dispatch_command(cli_to_ipc(&NovaCommand::Toggle { target: "clock".to_string() }), &s);
    assert!(r.ok);
    assert_eq!(s.apply_action(a.unwrap()), DaemonEffect::Toggle("clock".to_string()));
    let (a, _) = dispatch_command(cli_to_ipc(&NovaCommand::SetProfile { name: "laptop".to_string() }), &s);
    assert_eq!(s.apply_action(a.unwrap()), DaemonEffect::Nothing);
    assert_eq!(s.active_profile, "laptop");
    let (a, r) = dispatch_command(cli_to_ipc(&NovaCommand::List), &s);
    assert!(a.is_none());
    assert_eq!(r.message, "3 widgets");
    let (a, r) = dispatch_command(cli_to_ipc(&NovaCommand::Hide { target: "foo".to_string() }), &s);
    assert!(a.is_none());
    assert_eq!(r.message, "Widget 'foo' not found");
}
