use indexmap::IndexMap;
use novashell_lib::factory::{
    action_command, attr, bindings_for, scale_sets_volume, common_attrs, element_kind, element_spec, image_update, is_container,
    merge_vars, parse_align, parse_ellipsize, parse_orientation, parse_revealer_transition, refresh_var, var_timers,
    Align, ButtonContent, ElementKind, ElementSpec, Ellipsize, ImageSource, ImageUpdate, Orientation,
    RevealerTransition, TimerSource,
};
use novashell_lib::error::NovaError;
use novashell_lib::strmap::StrMap;
use novashell_lib::template::{has_placeholder, interpolate, placeholders};
use novashell_lib::widgets::{VarDef, WidgetDefinition};
use novashell_lib::xml::{build_template_tree, parse_template, NodeParent, XmlToken};

fn vars(pairs: &[(&str, &str)]) -> StrMap<String> {
    let mut m = StrMap::new();
    for (k, v) in pairs {
        m.insert(k.to_string(), v.to_string());
    }
    m
}

#[test]
fn interpolate_replaces_placeholders() {
    let v = vars(&[("percent", "42"), ("name", "cpu")]);
    assert_eq!(interpolate("{percent}%", &v), "42%");
    assert_eq!(interpolate("{name}: {percent}% {missing}!", &v), "cpu: 42% !");
    assert_eq!(interpolate("no vars here", &v), "no vars here");
    assert_eq!(interpolate("{1bad} {} {a-b} {percent", &v), "{1bad} {} {a-b} {percent");
    assert_eq!(interpolate("{{name}}", &v), "{cpu}");
    assert_eq!(interpolate("", &v), "");
}

#[test]
fn placeholder_names_in_order() {
    assert_eq!(placeholders("{a} and {b_2} and {a}"), vec!["a".to_string(), "b_2".to_string(), "a".to_string()]);
    assert!(has_placeholder("x {y} z"));
    assert!(!has_placeholder("x {9} z"));
}

#[test]
fn merge_vars_defaults_then_instance() {
    let mut dv = IndexMap::new();
    dv.insert("a".to_string(), VarDef { script: None, builtin: None, interval_ms: 1000, default: "1".to_string() });
    dv.insert("b".to_string(), VarDef { script: None, builtin: None, interval_ms: 1000, default: "2".to_string() });
    let d = WidgetDefinition { name: "w".to_string(), description: String::new(), template: String::new(), vars: dv, default_style: String::new() };
    let m = merge_vars(&d, &Some(vec![("b".to_string(), "20".to_string()), ("c".to_string(), "3".to_string())]));
    assert_eq!(m.get("a").unwrap(), "1");
    assert_eq!(m.get("b").unwrap(), "20");
    assert_eq!(m.get("c").unwrap(), "3");
    let m = merge_vars(&d, &None);
    assert_eq!(m.get("b").unwrap(), "2");
    assert!(m.get("c").is_none());
}

#[test]
fn attribute_parsers() {
    assert_eq!(parse_orientation(Some("h")), Orientation::Horizontal);
    assert_eq!(parse_orientation(Some("horizontal")), Orientation::Horizontal);
    assert_eq!(parse_orientation(Some("v")), Orientation::Vertical);
    assert_eq!(parse_orientation(None), Orientation::Vertical);
    assert_eq!(parse_align("start"), Align::Start);
    assert_eq!(parse_align("center"), Align::Center);
    assert_eq!(parse_align("weird"), Align::Fill);
    assert_eq!(parse_ellipsize("middle"), Ellipsize::Middle);
    assert_eq!(parse_ellipsize("no"), Ellipsize::Never);
    assert_eq!(parse_revealer_transition("crossfade"), RevealerTransition::Crossfade);
    assert_eq!(parse_revealer_transition("x"), RevealerTransition::NoAnimation);
    assert_eq!(element_kind("scrolled"), ElementKind::Scrolled);
    assert_eq!(element_kind("foo"), ElementKind::Unknown);
    assert!(is_container("revealer"));
    assert!(!is_container("label"));
    assert!(is_container("button"));
    assert!(scale_sets_volume("volume::set"));
    assert!(scale_sets_volume("vol::set"));
    assert!(!scale_sets_volume("media::next"));
}

#[test]
fn action_commands() {
    assert_eq!(action_command("media::play_pause"), Some("playerctl play-pause"));
    assert_eq!(action_command("volume::up"), Some("wpctl set-volume @DEFAULT_AUDIO_SINK@ 5%+"));
    assert_eq!(action_command("launcher::open"), Some("rofi -show drun || wofi --show drun || fuzzel"));
    assert_eq!(action_command("nope"), None);
}

#[test]
fn image_updates() {
    assert_eq!(image_update("/tmp/a.png"), ImageUpdate::FromFile);
    assert_eq!(image_update("~/a.png"), ImageUpdate::FromFile);
    assert_eq!(image_update("audio-x-generic"), ImageUpdate::Icon);
    assert_eq!(image_update(""), ImageUpdate::Keep);
}

#[test]
fn common_and_element_attrs() {
    let v = vars(&[("cls", "big")]);
    let raw = vars(&[("class", "a {cls}  c"), ("id", "w1"), ("min-width", "40"), ("hexpand", "true"), ("margin", "x")]);
    let c = common_attrs(&raw, &v);
    assert_eq!(c.classes, vec!["a".to_string(), "big".to_string(), "c".to_string()]);
    assert_eq!(c.id, Some("w1".to_string()));
    assert_eq!(c.size_request, Some((40, -1)));
    assert!(c.hexpand);
    assert!(!c.vexpand);
    assert_eq!(c.margin, None);

    let raw = vars(&[("spacing", "6"), ("orientation", "h"), ("halign", "end")]);
    match element_spec("box", &raw, &v) {
        ElementSpec::Box { orientation, spacing, halign, valign, .. } => {
            assert_eq!(orientation, Orientation::Horizontal);
            assert_eq!(spacing, 6);
            assert_eq!(halign, Some(Align::End));
            assert_eq!(valign, None);
        }
        _ => panic!("expected a box"),
    }
    let raw = vars(&[("label", "Go"), ("action", "media::next")]);
    match element_spec("button", &raw, &v) {
        ElementSpec::Button { content: ButtonContent::Label(l), action, tooltip } => {
            assert_eq!(l, "Go");
            assert_eq!(action, Some("media::next".to_string()));
            assert_eq!(tooltip, None);
        }
        _ => panic!("expected a labelled button"),
    }
    let raw = vars(&[("fallback-icon", "x-icon"), ("width", "16")]);
    match element_spec("image", &raw, &v) {
        ElementSpec::Image { source: ImageSource::Icon(i), size_request, .. } => {
            assert_eq!(i, "x-icon");
            assert_eq!(size_request, Some((16, -1)));
        }
        _ => panic!("expected an icon image"),
    }
    assert!(matches!(element_spec("whatever", &raw, &v), ElementSpec::Unknown));
    assert_eq!(attr(&raw, "width", &v), Some("16".to_string()));
    let raw = vars(&[("row-homogeneous", "true"), ("column-spacing", "4"), ("col-spacing", "9")]);
    match element_spec("grid", &raw, &v) {
        ElementSpec::Grid { row_spacing, col_spacing, row_homogeneous } => {
            assert_eq!(row_spacing, None);
            assert_eq!(col_spacing, Some(4));
            assert!(row_homogeneous);
        }
        _ => panic!("expected a grid"),
    }
}

#[test]
fn bindings_and_timers() {
    let raw = vars(&[("text", "{a} / {b}"), ("class", "{a}"), ("icon", "{c}")]);
    let b = bindings_for(&raw);
    let pairs: Vec<(String, String)> = b.iter().map(|x| (x.var.clone(), x.template.clone())).collect();
    assert_eq!(
        pairs,
        vec![
            ("a".to_string(), "{a} / {b}".to_string()),
            ("b".to_string(), "{a} / {b}".to_string()),
            ("c".to_string(), "{c}".to_string()),
        ]
    );
    let mut dv = IndexMap::new();
    dv.insert("a".to_string(), VarDef { script: Some("echo 1".to_string()), builtin: None, interval_ms: 500, default: String::new() });
    dv.insert("b".to_string(), VarDef { script: Some("s".to_string()), builtin: Some("clock::time".to_string()), interval_ms: 1000, default: String::new() });
    dv.insert("c".to_string(), VarDef { script: None, builtin: None, interval_ms: 1000, default: String::new() });
    dv.insert("d".to_string(), VarDef { script: Some("unbound".to_string()), builtin: None, interval_ms: 1000, default: String::new() });
    let d = WidgetDefinition { name: "w".to_string(), description: String::new(), template: String::new(), vars: dv, default_style: String::new() };
    let t = var_timers(&d, &b);
    assert_eq!(t.len(), 2);
    assert_eq!(t[0].var, "a");
    assert!(matches!(&t[0].source, TimerSource::Script(s) if s == "echo 1"));
    assert_eq!(t[0].interval_ms, 500);
    assert_eq!(t[1].var, "b");
    assert!(matches!(&t[1].source, TimerSource::Builtin(s) if s == "clock::time"));
}

#[test]
fn refresh_rerenders_templates() {
    let mut values = vars(&[("a", "1"), ("b", "2")]);
    let r = refresh_var(&mut values, "a", "9".to_string(), &vec!["{a} / {b}".to_string(), "{a}".to_string()]);
    assert_eq!(r, vec!["9 / 2".to_string(), "9".to_string()]);
    assert_eq!(values.get("a").unwrap(), "9");
}

#[test]
fn xml_tree_nesting_and_root() {
    let t = parse_template("<Box class=\"outer\"><label text=\"{x}\"/><grid><label/></grid></Box>").unwrap();
    assert_eq!(t.root, 0);
    assert_eq!(t.nodes.len(), 4);
    assert_eq!(t.nodes[0].tag, "box");
    assert_eq!(t.nodes[0].parent, NodeParent::Top);
    assert_eq!(t.nodes[0].raw_attrs.get("class").unwrap(), "outer");
    assert_eq!(t.nodes[1].tag, "label");
    assert_eq!(t.nodes[1].parent, NodeParent::Child(0));
    assert_eq!(t.nodes[1].raw_attrs.get("text").unwrap(), "{x}");
    assert_eq!(t.nodes[2].tag, "grid");
    assert_eq!(t.nodes[2].parent, NodeParent::Child(0));
    assert_eq!(t.nodes[3].parent, NodeParent::Child(2));
}

#[test]
fn xml_open_tags_close_themselves() {
    let t = parse_template("<box><label text=\"a\"></label><button icon=\"x\"><label text=\"Click me\"/></button><image/></box>").unwrap();
    assert_eq!(t.nodes.len(), 5);
    assert_eq!(t.nodes[1].parent, NodeParent::Child(0));
    assert_eq!(t.nodes[2].tag, "button");
    assert_eq!(t.nodes[3].parent, NodeParent::Child(2));
    assert_eq!(t.nodes[4].parent, NodeParent::Child(0));
    assert_eq!(t.root, 0);
    let t = parse_template("<box><label><image/></label></box>").unwrap();
    assert_eq!(t.nodes[2].parent, NodeParent::Detached);
}

#[test]
fn xml_last_top_level_is_root() {
    let t = parse_template("<label text=\"a\"/><box/>").unwrap();
    assert_eq!(t.root, 1);
    assert_eq!(t.nodes[0].parent, NodeParent::Top);
}

#[test]
fn xml_errors() {
    match parse_template("") {
        Err(NovaError::Widget(m)) => assert_eq!(m, "Empty widget template"),
        other => panic!("unexpected {:?}", other),
    }
    match parse_template("<box></label>") {
        Err(NovaError::Xml(m)) => assert!(m.starts_with("XML parse error: ")),
        other => panic!("unexpected {:?}", other),
    }
}

#[test]
fn tree_from_tokens() {
    let toks = vec![
        XmlToken::Element { name: "BOX".to_string(), attrs: vec![Some(("a".to_string(), "1".to_string())), None, Some(("a".to_string(), "2".to_string()))], opens: true },
        XmlToken::Element { name: "label".to_string(), attrs: vec![], opens: false },
        XmlToken::End,
        XmlToken::End,
        XmlToken::Element { name: "image".to_string(), attrs: vec![], opens: false },
        XmlToken::Eof,
    ];
    let t = build_template_tree(&toks).unwrap();
    assert_eq!(t.nodes[0].tag, "box");
    assert_eq!(t.nodes[0].raw_attrs.get("a").unwrap(), "2");
    assert_eq!(t.nodes[1].parent, NodeParent::Child(0));
    assert_eq!(t.nodes[2].parent, NodeParent::Top);
    assert_eq!(t.root, 2);
    let toks = vec![XmlToken::Error("boom".to_string())];
    match build_template_tree(&toks) {
        Err(NovaError::Xml(m)) => assert_eq!(m, "XML parse error: boom"),
        other => panic!("unexpected {:?}", other),
    }
}

#[test]
fn xml_overlay_holds_its_layers() {
    let t = parse_template("<OVERLAY><image icon=\"bg\"/><Label text=\"top\"/></OVERLAY>").unwrap();
    assert_eq!(t.root, 0);
    assert_eq!(t.nodes.len(), 3);
    assert_eq!(t.nodes[0].tag, "overlay");
    assert_eq!(t.nodes[1].tag, "image");
    assert_eq!(t.nodes[1].parent, NodeParent::Child(0));
    assert_eq!(t.nodes[2].tag, "label");
    assert_eq!(t.nodes[2].parent, NodeParent::Child(0));
}

#[test]
fn interpolate_agrees_with_the_placeholder_pattern() {
    // The `{name}` grammar, as the pattern `\{([a-zA-Z_][a-zA-Z0-9_]*)\}`
    // replaced left to right by `regex`, on a spread of edge cases.
    let re = regex::Regex::new(r"\{([a-zA-Z_][a-zA-Z0-9_]*)\}").unwrap();
    let v = vars(&[("a", "1"), ("_b", "two"), ("c9", "{a}"), ("é", "no")]);
    let cases = [
        "", "{", "}", "{}", "{a}", "{{a}}", "{a}{_b}", "x{a}y{c9}z", "{9a}", "{a-b}", "{a b}",
        "{é}", "{aé}", "{missing}", "{a", "a}", "{_}", "{{{_b}}}", "{c9}{a}", "tail {A}",
    ];
    for t in cases {
        let expected = re.replace_all(t, |c: &regex::Captures| match c[1].to_string().as_str() {
            "a" => "1".to_string(),
            "_b" => "two".to_string(),
            "c9" => "{a}".to_string(),
            _ => String::new(),
        });
        assert_eq!(interpolate(t, &v), expected, "template {t:?}");
    }
}
