use indexmap::IndexMap;
use novashell_lib::config::schema::{
    default_class_prefix, default_config_dir, default_font, default_font_size, default_log_level, default_monitor,
    default_padding, default_true, AnchorPoint, GlobalSettings, LayerType, NovaConfig, PositionConfig, ScreenConfig,
    WidgetDefaults, WidgetInstance,
};
use novashell_lib::config::watcher::{
    change_for_extension, classify_event, reload_kind_of, ChangeEvent, ChangeKind, ReloadDebouncer,
};
use novashell_lib::config::{first_existing, config_parse_error, config_read_error, ConfigLoader};
use novashell_lib::css::{add_inline, extract_import_path, import_line_unwrappable, resolve_import, with_inline};
use novashell_lib::error::NovaError;
use novashell_lib::ipc::IpcAction;
use novashell_lib::paths::{join_path, path_has_extension};
use novashell_lib::plugin::{plugin_metadata, stub_definition, PluginLoader, RawPluginInfo};
use novashell_lib::renderer::{
    anchor_edges, builtin_context, click_command, definition_not_found, definition_source, expand_tilde, instance_id,
    config_instances, screen_plan, screens_to_render, target_windows, wants_click_handler, window_size, DefinitionSource,
};
use novashell_lib::state::WidgetRegistry;
use novashell_lib::widgets::launcher::{
    clean_exec, collect_entries, command_for_name, launch_parts, matching_entries, parse_desktop_file,
};
use novashell_lib::widgets::{BuiltinRegistry, WidgetDefinition};

fn instance(widget: &str, id: Option<&str>, visible: bool) -> WidgetInstance {
    let mut w = WidgetInstance::default();
    w.widget = widget.to_string();
    w.id = id.map(String::from);
    w.visible = visible;
    w
}

#[test]
fn schema_defaults() {
    assert_eq!(default_log_level(), "info");
    assert_eq!(default_config_dir(), "~/.config/novashell");
    assert!(default_true());
    assert_eq!(default_monitor(), "DP-1");
    assert_eq!(default_class_prefix(), "nova");
    assert_eq!(default_font(), "Sans");
    assert_eq!(default_font_size(), 12);
    assert_eq!(default_padding(), 8);
    let p = PositionConfig::default();
    assert_eq!(p.anchor, AnchorPoint::TopLeft);
    assert_eq!(p.margin, [0, 0, 0, 0]);
    let s = ScreenConfig::default();
    assert_eq!(s.layer, LayerType::Top);
    assert!(s.enabled && s.widgets.is_empty());
    let w = WidgetInstance::default();
    assert!(w.visible && w.id.is_none());
}

#[test]
fn anchors() {
    assert!(AnchorPoint::TopLeft.has_top() && AnchorPoint::TopLeft.has_left());
    assert!(!AnchorPoint::Center.has_top() && !AnchorPoint::Center.has_right());
    assert!(AnchorPoint::BottomRight.has_bottom() && AnchorPoint::BottomRight.has_right());
    assert_eq!(anchor_edges(AnchorPoint::Right), (false, false, false, true));
    assert_eq!(anchor_edges(AnchorPoint::Bottom), (false, true, false, false));
}

#[test]
fn render_plan() {
    let mut screens = IndexMap::new();
    let mut s1 = ScreenConfig::default();
    s1.widgets = vec![instance("clock", None, true), instance("bar", Some("mybar"), true), instance("x", None, false)];
    let mut s2 = ScreenConfig::default();
    s2.enabled = false;
    screens.insert("main".to_string(), s1.clone());
    screens.insert("side".to_string(), s2);
    let config = NovaConfig { novashell: GlobalSettings::default(), screens, defaults: WidgetDefaults::default() };
    assert_eq!(screens_to_render(&config), vec!["main".to_string()]);
    assert_eq!(
        screen_plan("main", &s1),
        vec![(0, "main-widget-0".to_string(), true), (1, "mybar".to_string(), true), (2, "main-widget-2".to_string(), false)]
    );
    assert_eq!(
        config_instances(&config),
        vec![
            ("main".to_string(), "main-widget-0".to_string(), true),
            ("main".to_string(), "mybar".to_string(), true),
            ("main".to_string(), "main-widget-2".to_string(), false),
        ]
    );
    assert_eq!(instance_id("s", 12, &instance("c", None, true)), "s-widget-12");
}

#[test]
fn instance_details() {
    let mut w = instance("exec", Some("e1"), true);
    assert!(!wants_click_handler(&w));
    assert_eq!(window_size(&w), None);
    w.position.width = Some(100);
    assert_eq!(window_size(&w), None);
    w.position.height = Some(50);
    assert_eq!(window_size(&w), Some((100, 50)));
    w.on_middle_click = Some("mid".to_string());
    assert!(wants_click_handler(&w));
    assert_eq!(click_command(&w, 2), Some(&"mid".to_string()));
    assert_eq!(click_command(&w, 1), None);
    assert_eq!(click_command(&w, 9), None);
    w.vars = Some(vec![("a".to_string(), "1".to_string()), ("a".to_string(), "2".to_string())]);
    let c = builtin_context("e1", &w);
    assert_eq!(c.id, "e1");
    assert_eq!(c.widget_name, "exec");
    assert_eq!(c.var("a", ""), "2");
}

#[test]
fn tilde_expansion() {
    assert_eq!(expand_tilde("~/w/a.widget", Some("/home/u")), "/home/u/w/a.widget");
    assert_eq!(expand_tilde("~", Some("/home/u")), "/home/u");
    assert_eq!(expand_tilde("~/", None), "/root");
    assert_eq!(expand_tilde("/abs", Some("/home/u")), "/abs");
    assert_eq!(expand_tilde("~user/x", Some("/home/u")), "~user/x");
    assert_eq!(join_path("/a/", "b"), "/a/b");
    assert_eq!(join_path("", "b"), "b");
    assert_eq!(join_path("/a", "/b"), "/b");
}

#[test]
fn definition_sources() {
    let mut reg = WidgetRegistry::new();
    reg.register(WidgetDefinition { name: "mine".to_string(), description: String::new(), template: "<box/>".to_string(), vars: IndexMap::new(), default_style: String::new() });
    let builtin = BuiltinRegistry::new();
    assert!(matches!(definition_source("~/w/x.widget", &reg, &builtin, None, Some("/home/u")), DefinitionSource::File(p) if p == "/home/u/w/x.widget"));
    assert!(matches!(definition_source("x.widget", &reg, &builtin, None, None), DefinitionSource::File(p) if p == "x.widget"));
    assert!(matches!(definition_source("mine", &reg, &builtin, None, None), DefinitionSource::Registered(d) if d.template == "<box/>"));
    match definition_source("other", &reg, &builtin, Some("/home/u/.config"), None) {
        DefinitionSource::Search(v) => assert_eq!(
            v,
            vec![
                "/home/u/.config/novashell/widgets/other.widget".to_string(),
                "widgets/other.widget".to_string(),
                "/usr/share/novashell/widgets/other.widget".to_string(),
            ]
        ),
        _ => panic!("expected a search"),
    }
    match definition_not_found("zz") {
        NovaError::Widget(m) => assert_eq!(m, "Widget definition 'zz' not found (not a path, not builtin, no .widget file)"),
        _ => panic!(),
    }
}

#[test]
fn window_targets() {
    let w = |s: &str, i: &str| (s.to_string(), i.to_string());
    let wins = vec![w("main", "a"), w("main", "b"), w("side", "a"), w("side", "c")];
    assert_eq!(target_windows(&wins, "a"), vec![0, 2]);
    assert_eq!(target_windows(&wins, "side"), vec![2, 3]);
    assert_eq!(target_windows(&wins, "z"), Vec::<usize>::new());
}

#[test]
fn config_locations() {
    assert_eq!(
        ConfigLoader::default_config_paths(Some("/home/u/.config")),
        vec!["/home/u/.config/novashell/config.yaml".to_string(), "/etc/novashell/config.yaml".to_string()]
    );
    assert_eq!(ConfigLoader::default_config_paths(None), vec!["/etc/novashell/config.yaml".to_string()]);
    let l = ConfigLoader::with_defaults(&vec!["/x/config.yaml".to_string()]);
    assert_eq!(l.path, "/x/config.yaml");
    assert_eq!(l.config_dir(), "/x");
    let l = ConfigLoader::with_defaults(&vec![]);
    assert_eq!(l.path, "/tmp/novashell-default.yaml");
    assert_eq!(l.config.defaults.class_prefix, "nova");
    assert_eq!(l.config.defaults.font, "Sans");
    assert_eq!(l.config.defaults.font_size, 12);
    assert_eq!(l.config.defaults.padding, 8);
    assert!(l.config.screens.is_empty());
    assert!(!l.config.novashell.hot_reload);
    let l = ConfigLoader { path: "config.yaml".to_string(), config: l.config };
    assert_eq!(l.config_dir(), "");
    assert_eq!(first_existing(&vec![false, true, true]), Some(1));
    assert_eq!(first_existing(&vec![false]), None);
    assert!(matches!(config_read_error("/c.yaml", "gone"), NovaError::Config(m) if m == "Cannot read /c.yaml: gone"));
    assert!(matches!(config_parse_error("/c.yaml", "bad"), NovaError::Config(m) if m == "YAML parse error in /c.yaml: bad"));
}

#[test]
fn watcher_classification() {
    let p = |s: &str| vec![s.to_string()];
    assert_eq!(classify_event(ChangeKind::Modify, &p("/c/style.css")), Some(ChangeEvent::CssChange("/c/style.css".to_string())));
    assert_eq!(classify_event(ChangeKind::Create, &p("/c/w.widget")), Some(ChangeEvent::WidgetChange("/c/w.widget".to_string())));
    assert_eq!(classify_event(ChangeKind::Remove, &p("/c/config.yml")), Some(ChangeEvent::ConfigChange("/c/config.yml".to_string())));
    assert_eq!(classify_event(ChangeKind::Modify, &p("/c/notes")), Some(ChangeEvent::Other("/c/notes".to_string())));
    assert_eq!(classify_event(ChangeKind::Other, &p("/c/style.css")), None);
    assert_eq!(classify_event(ChangeKind::Modify, &vec![]), None);
    assert!(path_has_extension("/a/b.so", "so"));
    assert!(!path_has_extension("/a/b.so", "/a/b.so"));
}

#[test]
fn watcher_debounce() {
    let mut d = ReloadDebouncer::new(1000);
    let paths = vec!["/c/style.css".to_string(), "/c/config.yaml".to_string(), "/c/x.txt".to_string()];
    assert_eq!(d.on_change(ChangeKind::Modify, &paths, 1100), vec![]);
    assert_eq!(d.on_change(ChangeKind::Modify, &paths, 1300), vec![IpcAction::ReloadCss, IpcAction::Reload]);
    assert_eq!(d.on_change(ChangeKind::Modify, &paths, 1500), vec![]);
    assert_eq!(d.on_change(ChangeKind::Other, &paths, 5000), vec![]);
    assert_eq!(d.on_change(ChangeKind::Create, &vec!["/c/a.css".to_string(), "/c/b.css".to_string()], 5000), vec![IpcAction::ReloadCss]);
    assert_eq!(d.last_css_reload_ms, 5000);
    let yaml = vec!["/c/config.yaml".to_string()];
    assert_eq!(d.on_change(ChangeKind::Modify, &yaml, 5100), vec![IpcAction::Reload]);
    assert_eq!(d.on_change(ChangeKind::Modify, &yaml, 5399), vec![]);
    assert_eq!(d.on_change(ChangeKind::Modify, &yaml, 5400), vec![IpcAction::Reload]);
}

#[test]
fn css_imports() {
    assert_eq!(extract_import_path("@import \"colors.css\";"), Some("colors.css".to_string()));
    assert_eq!(extract_import_path("@import 'a/b.css' ;"), Some("a/b.css".to_string()));
    assert_eq!(extract_import_path("@import url(\"u.css\");"), Some("u.css".to_string()));
    assert_eq!(extract_import_path("@import url(bare.css);"), Some("bare.css".to_string()));
    assert_eq!(extract_import_path("@import colors.css;"), None);
    assert!(import_line_unwrappable("@import \"colors.css\";"));
    assert!(!import_line_unwrappable("@import \";"));
    assert_eq!(resolve_import("/c/style.css", "theme.css"), "/c/theme.css");
    assert_eq!(resolve_import("/c/style.css", "/abs/t.css"), "/abs/t.css");
    assert_eq!(resolve_import("style.css", "t.css"), "t.css");
}

#[test]
fn plugins() {
    let raw = RawPluginInfo {
        name: Some("nova_weather".to_string()),
        version: None,
        description: None,
        widget_names: vec![Some("weather".to_string()), None, Some("radar".to_string())],
    };
    let m = plugin_metadata(&raw);
    assert_eq!(m.name, "nova_weather");
    assert_eq!(m.version, "0.0.0");
    assert_eq!(m.description, "");
    assert_eq!(m.widget_names, vec!["weather".to_string(), "radar".to_string()]);
    let d = stub_definition("p", "w");
    assert_eq!(d.description, "Plugin widget from p");
    assert_eq!(d.template, "<box class=\"nova-plugin-w\"/>");
    let mut l = PluginLoader::new();
    l.add_plugin(&raw);
    l.add_plugin(&RawPluginInfo { name: None, version: None, description: None, widget_names: vec![] });
    assert_eq!(l.plugin_count(), 2);
    assert_eq!(l.plugin_names(), vec!["nova_weather".to_string(), "unknown".to_string()]);
    let defs = l.contributed_definitions();
    assert_eq!(defs.len(), 2);
    assert_eq!(defs.get("radar").unwrap().template, "<box class=\"nova-plugin-radar\"/>");
}

#[test]
fn desktop_entries() {
    let content = "[Desktop Entry]\nType=Application\nName=Firefox\nExec=firefox %u\nIcon=firefox\nCategories=Network;Web;\n[Desktop Action new]\nName=New Window\n";
    let e = parse_desktop_file(content).unwrap();
    assert_eq!(e.name, "Firefox");
    assert_eq!(e.command, "firefox");
    assert_eq!(e.icon, "firefox");
    assert_eq!(e.categories, vec!["Network".to_string(), "Web".to_string(), "".to_string()]);
    assert!(!e.no_display);
    assert!(parse_desktop_file("[Desktop Entry]\nType=Link\nName=X\n").is_none());
    assert!(parse_desktop_file("[Desktop Entry]\nExec=x\n").is_none());
    assert_eq!(clean_exec("  app %F --flag %i "), "app  --flag");
    let b = parse_desktop_file("[Desktop Entry]\nName=Btop\nExec=btop\n").unwrap();
    let hidden = parse_desktop_file("[Desktop Entry]\nName=Hidden\nExec=h\nNoDisplay=TRUE\n").unwrap();
    let a = parse_desktop_file("[Desktop Entry]\nName=Alacritty\nExec=alacritty\n").unwrap();
    let a2 = parse_desktop_file("[Desktop Entry]\nName=Alacritty\nExec=other\n").unwrap();
    let list = collect_entries(vec![b, hidden, a, a2, e]);
    let names: Vec<&str> = list.iter().map(|x| x.name.as_str()).collect();
    assert_eq!(names, vec!["Alacritty", "Btop", "Firefox"]);
    assert_eq!(list[0].command, "alacritty");
    assert_eq!(matching_entries(&list, "FIRE"), vec![2]);
    assert_eq!(matching_entries(&list, ""), vec![0, 1, 2]);
    assert_eq!(command_for_name(&list, "Btop"), Some("btop".to_string()));
    assert_eq!(launch_parts("app --a b"), Some(("app".to_string(), vec!["--a".to_string(), "b".to_string()])));
    assert_eq!(launch_parts("   "), None);
}

use novashell_lib::css::{CssExpander, CssFile, CssStep};

fn expand_files(files: &[(&str, CssFile)], root: &str) -> (Result<String, NovaError>, usize) {
    let (mut e, mut step) = CssExpander::new(root);
    let mut reads = 0;
    loop {
        match step {
            CssStep::Done(r) => return (r, reads),
            CssStep::Read(p) => {
                reads += 1;
                let f = files.iter().find(|(n, _)| *n == p).map(|(_, f)| f.clone()).unwrap_or(CssFile::Missing);
                step = e.supply(f);
            }
        }
    }
}

#[test]
fn css_expansion_nested_and_missing() {
    let files = [
        ("/c/style.css", CssFile::Text("a {}\n@import \"theme.css\";\nb {}".to_string())),
        ("/c/theme.css", CssFile::Text("t {}\n  @import url(missing.css);".to_string())),
    ];
    let (r, reads) = expand_files(&files, "/c/style.css");
    assert_eq!(r, Ok("a {}\nt {}\n\n\nb {}\n".to_string()));
    assert_eq!(reads, 3);
    let (r, _) = expand_files(&[], "/c/none.css");
    assert_eq!(r, Ok(String::new()));
    let (r, reads) = expand_files(&[("/c/plain.css", CssFile::Text("a {}\r\nb {}".to_string()))], "/c/plain.css");
    assert_eq!(r, Ok("a {}\nb {}\n".to_string()));
    assert_eq!(reads, 1);
}

#[test]
fn css_expansion_depth_limit() {
    let files = [("/c/a.css", CssFile::Text("@import \"a.css\";".to_string()))];
    let (r, reads) = expand_files(&files, "/c/a.css");
    assert_eq!(reads, 17);
    assert_eq!(r, Ok("\n".repeat(17)));
}

#[test]
fn css_expansion_unreadable() {
    let files = [
        ("/c/style.css", CssFile::Text("@import 'x.css';\nz {}".to_string())),
        ("/c/x.css", CssFile::Unreadable("denied".to_string())),
    ];
    let (r, _) = expand_files(&files, "/c/style.css");
    assert_eq!(r, Err(NovaError::Css("Cannot read CSS file /c/x.css: denied".to_string())));
}

#[test]
fn change_by_extension() {
    assert_eq!(change_for_extension("a.css".to_string(), Some("css")), ChangeEvent::CssChange("a.css".to_string()));
    assert_eq!(change_for_extension("w.widget".to_string(), Some("widget")), ChangeEvent::WidgetChange("w.widget".to_string()));
    assert_eq!(change_for_extension("c.yaml".to_string(), Some("yaml")), ChangeEvent::ConfigChange("c.yaml".to_string()));
    assert_eq!(change_for_extension("c.yml".to_string(), Some("yml")), ChangeEvent::ConfigChange("c.yml".to_string()));
    assert_eq!(change_for_extension("c.toml".to_string(), Some("toml")), ChangeEvent::Other("c.toml".to_string()));
    assert_eq!(change_for_extension("Makefile".to_string(), None), ChangeEvent::Other("Makefile".to_string()));
}

#[test]
fn reload_kind_by_extension() {
    assert_eq!(reload_kind_of(Some("css")), Some(true));
    for e in ["yaml", "toml", "json", "widget"] {
        assert_eq!(reload_kind_of(Some(e)), Some(false));
    }
    assert_eq!(reload_kind_of(Some("yml")), None);
    assert_eq!(reload_kind_of(Some("txt")), None);
    assert_eq!(reload_kind_of(None), None);
}

#[test]
fn extension_rule_on_plain_names() {
    assert!(path_has_extension("/c/style.css", "css"));
    assert!(path_has_extension("/c/archive.tar.gz", "gz"));
    assert!(!path_has_extension("/c/.hidden", "hidden"));
    assert!(path_has_extension("/c/.config.yaml", "yaml"));
    assert!(!path_has_extension("/c/notes", ""));
    assert!(path_has_extension("/c/trailing.", ""));
}

#[test]
fn watcher_burst_sends_spaced() {
    // A burst of saves every 50 ms over two seconds: each kind of reload is
    // sent at most once per 300 ms.
    let mut d = ReloadDebouncer::new(0);
    let mut sent: Vec<(IpcAction, u64)> = Vec::new();
    let css = vec!["/c/style.css".to_string()];
    let cfg = vec!["/c/config.yaml".to_string(), "/c/bar.widget".to_string()];
    let mut t: u64 = 0;
    while t <= 2000 {
        let paths = if (t / 50) % 2 == 0 { &css } else { &cfg };
        for a in d.on_change(ChangeKind::Modify, paths, t) {
            sent.push((a, t));
        }
        t += 50;
    }
    assert!(!sent.is_empty());
    for (i, (a, ta)) in sent.iter().enumerate() {
        assert!(*a == IpcAction::Reload || *a == IpcAction::ReloadCss);
        assert!(*ta >= 300);
        for (b, tb) in sent.iter().skip(i + 1) {
            if a == b {
                assert!(*tb >= *ta + 300);
            }
        }
    }
    let css_times: Vec<u64> = sent.iter().filter(|(a, _)| *a == IpcAction::ReloadCss).map(|(_, t)| *t).collect();
    assert_eq!(css_times, vec![300, 600, 900, 1200, 1500, 1800]);
    let cfg_times: Vec<u64> = sent.iter().filter(|(a, _)| *a == IpcAction::Reload).map(|(_, t)| *t).collect();
    assert_eq!(cfg_times, vec![350, 650, 950, 1250, 1550, 1850]);
}

#[test]
fn watcher_spacing_with_clock_going_back() {
    // Times that go backwards never bring two reloads closer than 300 ms.
    let mut d = ReloadDebouncer::new(1000);
    let css = vec!["/c/style.css".to_string()];
    assert_eq!(d.on_change(ChangeKind::Modify, &css, 1400), vec![IpcAction::ReloadCss]);
    assert_eq!(d.on_change(ChangeKind::Modify, &css, 1200), vec![]);
    assert_eq!(d.on_change(ChangeKind::Modify, &css, 500), vec![]);
    assert_eq!(d.on_change(ChangeKind::Modify, &css, 1699), vec![]);
    assert_eq!(d.on_change(ChangeKind::Modify, &css, 1700), vec![IpcAction::ReloadCss]);
}

#[test]
fn inline_css_accumulates() {
    let mut inline = String::new();
    add_inline(&mut inline, ".a { color: red; }");
    add_inline(&mut inline, ".b { color: blue; }");
    assert_eq!(inline, "\n.a { color: red; }\n.b { color: blue; }");
    assert_eq!(with_inline("window {}", &inline), "window {}\n.a { color: red; }\n.b { color: blue; }");
}
