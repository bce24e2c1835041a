//! What the renderer does with a configuration: which screens and widget
//! instances get windows, how each window is anchored and sized, where a
//! widget's definition comes from, and which command each click runs.
use vstd::prelude::*;
use crate::config::schema::{AnchorPoint, NovaConfig, ScreenConfig, WidgetInstance};
use crate::error::NovaError;
use crate::ordered::{ordered_get, screen_entries, screen_map_get_index, screen_map_len};
use crate::paths::{join, join_path};
use crate::state::WidgetRegistry;
use crate::text::{concat, concat3, dec, ends_with, push_str, str_contains, str_ends_with, str_starts_with, starts_with, u64_to_string, views, contains};
use crate::widgets::{BuiltinRegistry, WidgetContext, WidgetDefinition};

verus! {

/// The names of the enabled screens, in configuration order.
pub open spec fn enabled_screens(s: Seq<(Seq<char>, ScreenConfig)>) -> Seq<Seq<char>>
    decreases s.len(),
{
    if s.len() == 0 {
        Seq::empty()
    } else if s.last().1.enabled {
        enabled_screens(s.drop_last()).push(s.last().0)
    } else {
        enabled_screens(s.drop_last())
    }
}

/// The screens `render_all` renders: the enabled ones, in configuration order.
pub fn screens_to_render(config: &NovaConfig) -> (r: Vec<String>)
    ensures
        views(r@) == enabled_screens(screen_entries(config.screens)),
{
    let n = screen_map_len(&config.screens);
    let mut r: Vec<String> = Vec::new();
    let mut i: usize = 0;
    while i < n
        invariant
            n == screen_entries(config.screens).len(),
            i <= n,
            views(r@) == enabled_screens(screen_entries(config.screens).take(i as int)),
        decreases n - i,
    {
        let ghost e = screen_entries(config.screens);
        proof {
            assert(e.take(i as int + 1).drop_last() =~= e.take(i as int));
        }
        match screen_map_get_index(&config.screens, i) {
            Some((name, screen)) => {
                if screen.enabled {
                    let ghost before = r@;
                    r.push(name.clone());
                    assert(views(r@) =~= views(before).push(name@));
                }
            },
            None => {},
        }
        i = i + 1;
    }
    assert(screen_entries(config.screens).take(n as int) =~= screen_entries(config.screens));
    r
}

/// The id of the `idx`-th instance of a screen: its own id, else `<screen>-widget-<idx>`.
pub open spec fn instance_id_of(screen: Seq<char>, idx: nat, inst: WidgetInstance) -> Seq<char> {
    match inst.id {
        Some(id) => id@,
        None => screen + "-widget-"@ + dec(idx),
    }
}

/// The id of the `idx`-th widget instance of screen `screen_name`.
pub fn instance_id(screen_name: &str, idx: usize, inst: &WidgetInstance) -> (r: String)
    ensures
        r@ == instance_id_of(screen_name@, idx as nat, *inst),
{
    match &inst.id {
        Some(id) => id.clone(),
        None => {
            let mut r = concat(screen_name, "-widget-");
            push_str(&mut r, u64_to_string(idx as u64).as_str());
            r
        },
    }
}

/// The instances of a screen, each with its position on the screen, its id,
/// and whether it starts visible (every instance gets a window; a hidden one
/// is built and kept hidden until it is shown).
pub open spec fn screen_instances(screen: Seq<char>, w: Seq<WidgetInstance>) -> Seq<(nat, Seq<char>, bool)>
    decreases w.len(),
{
    if w.len() == 0 {
        Seq::empty()
    } else {
        screen_instances(screen, w.drop_last()).push(
            ((w.len() - 1) as nat, instance_id_of(screen, (w.len() - 1) as nat, w.last()), w.last().visible),
        )
    }
}

pub open spec fn plan_views(p: Seq<(usize, String, bool)>) -> Seq<(nat, Seq<char>, bool)> {
    p.map_values(|x: (usize, String, bool)| (x.0 as nat, x.1@, x.2))
}

/// The widget instances `render_screen` builds windows for, in order.
pub fn screen_plan(screen_name: &str, screen: &ScreenConfig) -> (r: Vec<(usize, String, bool)>)
    ensures
        plan_views(r@) == screen_instances(screen_name@, screen.widgets@),
{
    let mut r: Vec<(usize, String, bool)> = Vec::new();
    let mut i: usize = 0;
    while i < screen.widgets.len()
        invariant
            i <= screen.widgets@.len(),
            plan_views(r@) == screen_instances(screen_name@, screen.widgets@.take(i as int)),
        decreases screen.widgets.len() - i,
    {
        let ghost w = screen.widgets@;
        proof {
            assert(w.take(i as int + 1).drop_last() =~= w.take(i as int));
            assert(w.take(i as int + 1).last() == w[i as int]);
        }
        let ghost before = r@;
        let id = instance_id(screen_name, i, &screen.widgets[i]);
        r.push((i, id, screen.widgets[i].visible));
        assert(plan_views(r@) =~= plan_views(before).push((i as nat, id@, w[i as int].visible)));
        i = i + 1;
    }
    assert(screen.widgets@.take(i as int) =~= screen.widgets@);
    r
}

/// One running widget instance: its screen's name, its id, and whether it
/// starts visible.
pub open spec fn with_screen(screen: Seq<char>, p: Seq<(nat, Seq<char>, bool)>) -> Seq<(Seq<char>, Seq<char>, bool)> {
    p.map_values(|x: (nat, Seq<char>, bool)| (screen, x.1, x.2))
}

/// The widget instances of the enabled screens, in configuration order.
pub open spec fn instances_of(s: Seq<(Seq<char>, ScreenConfig)>) -> Seq<(Seq<char>, Seq<char>, bool)>
    decreases s.len(),
{
    if s.len() == 0 {
        Seq::empty()
    } else if s.last().1.enabled {
        instances_of(s.drop_last()) + with_screen(s.last().0, screen_instances(s.last().0, s.last().1.widgets@))
    } else {
        instances_of(s.drop_last())
    }
}

/// The running instances of a configuration.
pub open spec fn config_instance_seq(config: NovaConfig) -> Seq<(Seq<char>, Seq<char>, bool)> {
    instances_of(screen_entries(config.screens))
}

pub open spec fn instance_views(v: Seq<(String, String, bool)>) -> Seq<(Seq<char>, Seq<char>, bool)> {
    v.map_values(|x: (String, String, bool)| (x.0@, x.1@, x.2))
}

/// The widget instances of the enabled screens: (screen, id, starts visible).
pub fn config_instances(config: &NovaConfig) -> (r: Vec<(String, String, bool)>)
    ensures
        instance_views(r@) == config_instance_seq(*config),
{
    let n = screen_map_len(&config.screens);
    let mut r: Vec<(String, String, bool)> = Vec::new();
    let mut i: usize = 0;
    while i < n
        invariant
            n == screen_entries(config.screens).len(),
            i <= n,
            instance_views(r@) == instances_of(screen_entries(config.screens).take(i as int)),
        decreases n - i,
    {
        let ghost e = screen_entries(config.screens);
        proof {
            assert(e.take(i as int + 1).drop_last() =~= e.take(i as int));
        }
        match screen_map_get_index(&config.screens, i) {
            Some((name, screen)) => {
                if screen.enabled {
                    let plan = screen_plan(name.as_str(), screen);
                    let ghost before = instance_views(r@);
                    let mut k: usize = 0;
                    while k < plan.len()
                        invariant
                            k <= plan@.len(),
                            plan_views(plan@) == screen_instances(name@, screen.widgets@),
                            instance_views(r@) == before + with_screen(name@, plan_views(plan@).take(k as int)),
                        decreases plan.len() - k,
                    {
                        let ghost b2 = instance_views(r@);
                        r.push((name.clone(), plan[k].1.clone(), plan[k].2));
                        proof {
                            assert(plan_views(plan@)[k as int] == (plan@[k as int].0 as nat, plan@[k as int].1@, plan@[k as int].2));
                            assert(instance_views(r@) =~= b2.push((name@, plan@[k as int].1@, plan@[k as int].2)));
                            assert(with_screen(name@, plan_views(plan@).take(k as int + 1))
                                =~= with_screen(name@, plan_views(plan@).take(k as int)).push((name@, plan@[k as int].1@, plan@[k as int].2)));
                        }
                        k = k + 1;
                    }
                    proof {
                        assert(plan_views(plan@).take(k as int) =~= plan_views(plan@));
                        assert(e.take(i as int + 1).last() == (name@, *screen));
                    }
                } else {
                    proof {
                        assert(e.take(i as int + 1).last() == (name@, *screen));
                    }
                }
            },
            None => {},
        }
        i = i + 1;
    }
    assert(screen_entries(config.screens).take(n as int) =~= screen_entries(config.screens));
    r
}

/// Whether a request target names instance `x`: its id, or its screen's name.
pub open spec fn addresses(x: (Seq<char>, Seq<char>, bool), target: Seq<char>) -> bool {
    x.1 == target || x.0 == target
}

/// Whether some running instance answers to `target`.
pub open spec fn target_known(insts: Seq<(Seq<char>, Seq<char>, bool)>, target: Seq<char>) -> bool {
    exists|i: int| 0 <= i < insts.len() && addresses(#[trigger] insts[i], target)
}

/// The edges a widget window is anchored to: (top, bottom, left, right).
pub fn anchor_edges(anchor: AnchorPoint) -> (r: (bool, bool, bool, bool))
    ensures
        r == (anchor.spec_has_top(), anchor.spec_has_bottom(), anchor.spec_has_left(), anchor.spec_has_right()),
{
    (anchor.has_top(), anchor.has_bottom(), anchor.has_left(), anchor.has_right())
}

/// The window size an instance asks for: only when both width and height are set.
pub fn window_size(inst: &WidgetInstance) -> (r: Option<(i32, i32)>)
    ensures
        r == (match (inst.position.width, inst.position.height) {
            (Some(w), Some(h)) => Some((w, h)),
            _ => None,
        }),
{
    match (inst.position.width, inst.position.height) {
        (Some(w), Some(h)) => Some((w, h)),
        _ => None,
    }
}

/// Whether any click command is configured for the instance.
pub open spec fn has_click(inst: WidgetInstance) -> bool {
    inst.on_click is Some || inst.on_right_click is Some || inst.on_middle_click is Some
}

pub fn wants_click_handler(inst: &WidgetInstance) -> (b: bool)
    ensures
        b == has_click(*inst),
{
    inst.on_click.is_some() || inst.on_right_click.is_some() || inst.on_middle_click.is_some()
}

/// The command a mouse button runs on an instance: 1 left, 2 middle, 3 right.
pub open spec fn click_command_of(inst: WidgetInstance, button: u32) -> Option<String> {
    if button == 1 {
        inst.on_click
    } else if button == 2 {
        inst.on_middle_click
    } else if button == 3 {
        inst.on_right_click
    } else {
        None
    }
}

/// Each mouse button runs its own command of the instance: a left click
/// (button 1) its `on_click`, a middle click (2) its `on_middle_click`, a
/// right click (3) its `on_right_click`, and other buttons nothing. So the
/// right-click command is found for button 3 whether or not the others are
/// set, and setting one button's command changes what that button runs only.
pub proof fn law_click_buttons(inst: WidgetInstance, button: u32, cmd: Option<String>)
    ensures
        click_command_of(inst, 1) == inst.on_click,
        click_command_of(inst, 2) == inst.on_middle_click,
        click_command_of(inst, 3) == inst.on_right_click,
        button < 1 || button > 3 ==> click_command_of(inst, button) is None,
        click_command_of((WidgetInstance { on_right_click: cmd, ..inst }), 3) == cmd,
        button != 3 ==> click_command_of((WidgetInstance { on_right_click: cmd, ..inst }), button)
            == click_command_of(inst, button),
        click_command_of((WidgetInstance { on_click: cmd, ..inst }), 3) == inst.on_right_click,
        click_command_of((WidgetInstance { on_middle_click: cmd, ..inst }), 3) == inst.on_right_click,
{
}

pub fn click_command(inst: &WidgetInstance, button: u32) -> (r: Option<&String>)
    ensures
        match r {
            Some(c) => click_command_of(*inst, button) == Some(*c),
            None => click_command_of(*inst, button) is None,
        },
{
    let c = if button == 1 {
        &inst.on_click
    } else if button == 2 {
        &inst.on_middle_click
    } else if button == 3 {
        &inst.on_right_click
    } else {
        return None;
    };
    match c {
        Some(s) => Some(s),
        None => None,
    }
}

/// The context a built-in widget is built with: the instance's id and widget
/// name, and its variables set in order.
pub fn builtin_context(instance_id: &str, inst: &WidgetInstance) -> (c: WidgetContext)
    ensures
        c.id@ == instance_id@,
        c.widget_name@ == inst.widget@,
        c.visible,
        c.vars@.map_values(|v: String| v@) == (match inst.vars {
            Some(v) => crate::factory::with_overrides(Map::empty(), v@),
            None => Map::empty(),
        }),
{
    let mut ctx = WidgetContext::new(instance_id, inst.widget.as_str());
    assert(ctx.vars@.map_values(|v: String| v@) =~= Map::<Seq<char>, Seq<char>>::empty());
    match &inst.vars {
        Some(vs) => {
            let mut j: usize = 0;
            assert(vs@.take(0) =~= Seq::<(String, String)>::empty());
            while j < vs.len()
                invariant
                    j <= vs@.len(),
                    ctx.id@ == instance_id@,
                    ctx.widget_name@ == inst.widget@,
                    ctx.visible,
                    ctx.vars@.map_values(|v: String| v@) == crate::factory::with_overrides(Map::empty(), vs@.take(j as int)),
                decreases vs.len() - j,
            {
                let ghost before = ctx.vars@.map_values(|v: String| v@);
                ctx.set_var(vs[j].0.as_str(), vs[j].1.as_str());
                assert(vs@.take(j as int + 1).drop_last() =~= vs@.take(j as int));
                assert(ctx.vars@.map_values(|v: String| v@) =~= before.insert(vs@[j as int].0@, vs@[j as int].1@));
                j = j + 1;
            }
            assert(vs@.take(j as int) =~= vs@);
        },
        None => {},
    }
    ctx
}

// ---- where a widget's definition comes from ---------------------------------

/// `~/...` or `~` with the home directory in place of `~` (`/root` when the
/// home directory is unknown); any other path unchanged.
pub open spec fn tilde_expanded(path: Seq<char>, home: Option<Seq<char>>) -> Seq<char> {
    let h = match home {
        Some(d) => d,
        None => "/root"@,
    };
    if path == "~"@ {
        h
    } else if starts_with(path, "~/"@) {
        let stripped = crate::text::trim_start_matches(path, "~/"@);
        if stripped.len() == 0 {
            h
        } else {
            join(h, stripped)
        }
    } else {
        path
    }
}

/// Expand `~` in a path, given the home directory.
pub fn expand_tilde(path: &str, home: Option<&str>) -> (r: String)
    ensures
        r@ == tilde_expanded(path@, crate::ipc::opt_view(home)),
{
    let h: &str = match home {
        Some(d) => d,
        None => "/root",
    };
    if crate::text::str_eq(path, "~") {
        return h.to_owned();
    }
    if str_starts_with(path, "~/") {
        let v = crate::text::to_chars(path);
        let p = crate::text::to_chars("~/");
        proof {
            reveal_strlit("~/");
        }
        let a = crate::text::trim_start_matches_pos(&v, &p);
        let stripped = crate::text::string_of(&v, a, v.len());
        if a == v.len() {
            h.to_owned()
        } else {
            join_path(h, stripped.as_str())
        }
    } else {
        path.to_owned()
    }
}

/// A widget reference names a file when it holds a `/` or ends in `.widget`.
pub open spec fn names_file(widget_ref: Seq<char>) -> bool {
    contains(widget_ref, "/"@) || ends_with(widget_ref, ".widget"@)
}

/// Where the definition of a (non built-in) widget comes from.
#[derive(Debug)]
pub enum DefinitionSource<'a> {
    /// Load this `.widget` file
    File(String),
    /// A definition already registered
    Registered(&'a WidgetDefinition),
    /// Load the first of these files that exists; none does: not found
    Search(Vec<String>),
}

/// The files searched for widget `name`: the user's widget directory (when
/// the user config directory is known), then `widgets/` and the system
/// directory.
pub open spec fn search_paths(name: Seq<char>, user_config_dir: Option<Seq<char>>) -> Seq<Seq<char>> {
    let file = name + ".widget"@;
    let rest = seq!["widgets/"@ + file, "/usr/share/novashell/widgets/"@ + file];
    match user_config_dir {
        Some(d) => seq![join(join(join(d, "novashell"@), "widgets"@), file)] + rest,
        None => rest,
    }
}

/// Where widget `widget_ref`'s definition comes from: a path names a file
/// (`~/` expanded); otherwise the state registry, then the built-in
/// registry's definitions, then a search of the widget directories.
pub fn definition_source<'a>(
    widget_ref: &str,
    registry: &'a WidgetRegistry,
    builtin: &'a BuiltinRegistry,
    user_config_dir: Option<&str>,
    home: Option<&str>,
) -> (r: DefinitionSource<'a>)
    ensures
        names_file(widget_ref@) ==> (r matches DefinitionSource::File(p) && p@ == (if starts_with(widget_ref@, "~/"@) {
            tilde_expanded(widget_ref@, crate::ipc::opt_view(home))
        } else {
            widget_ref@
        })),
        !names_file(widget_ref@) ==> match registry.lookup(widget_ref@) {
            Some(d) => r matches DefinitionSource::Registered(x) && *x == d,
            None => match ordered_get(builtin.definitions(), widget_ref@) {
                Some(d) => r matches DefinitionSource::Registered(x) && *x == d,
                None => r matches DefinitionSource::Search(v) && views(v@) == search_paths(widget_ref@, crate::ipc::opt_view(user_config_dir)),
            },
        },
{
    if str_contains(widget_ref, "/") || str_ends_with(widget_ref, ".widget") {
        let path = if str_starts_with(widget_ref, "~/") {
            expand_tilde(widget_ref, home)
        } else {
            widget_ref.to_owned()
        };
        return DefinitionSource::File(path);
    }
    match registry.get(widget_ref) {
        Some(d) => return DefinitionSource::Registered(d),
        None => {},
    }
    match builtin.get_definition(widget_ref) {
        Some(d) => return DefinitionSource::Registered(d),
        None => {},
    }
    let file = concat(widget_ref, ".widget");
    let mut v: Vec<String> = Vec::new();
    match user_config_dir {
        Some(d) => {
            let a = join_path(d, "novashell");
            let b = join_path(a.as_str(), "widgets");
            v.push(join_path(b.as_str(), file.as_str()));
        },
        None => {},
    }
    v.push(concat("widgets/", file.as_str()));
    v.push(concat("/usr/share/novashell/widgets/", file.as_str()));
    proof {
        match user_config_dir {
            Some(d) => assert(views(v@) =~= search_paths(widget_ref@, crate::ipc::opt_view(user_config_dir))),
            None => assert(views(v@) =~= search_paths(widget_ref@, crate::ipc::opt_view(user_config_dir))),
        }
    }
    DefinitionSource::Search(v)
}

/// The error for a widget whose definition is nowhere to be found.
pub fn definition_not_found(widget_ref: &str) -> (e: NovaError)
    ensures
        e matches NovaError::Widget(d) && d@ == "Widget definition '"@ + widget_ref@
            + "' not found (not a path, not builtin, no .widget file)"@,
{
    NovaError::Widget(concat3("Widget definition '", widget_ref, "' not found (not a path, not builtin, no .widget file)"))
}

// ---- showing, hiding and toggling windows -----------------------------------

/// The windows (by position) a request for `target` addresses: those whose
/// instance id is `target`, and those on the screen named `target`.
pub open spec fn matching(windows: Seq<(Seq<char>, Seq<char>)>, target: Seq<char>) -> Seq<nat>
    decreases windows.len(),
{
    if windows.len() == 0 {
        Seq::empty()
    } else if windows.last().1 == target || windows.last().0 == target {
        matching(windows.drop_last(), target).push((windows.len() - 1) as nat)
    } else {
        matching(windows.drop_last(), target)
    }
}

pub open spec fn window_views(w: Seq<(String, String)>) -> Seq<(Seq<char>, Seq<char>)> {
    w.map_values(|x: (String, String)| (x.0@, x.1@))
}

/// The windows to show, hide or toggle for `target`, given each window's
/// (screen, instance id): a target is a widget id or a screen name (none
/// matching: the target is reported as not found).
pub fn target_windows(windows: &Vec<(String, String)>, target: &str) -> (r: Vec<usize>)
    ensures
        r@.map_values(|i: usize| i as nat) == matching(window_views(windows@), target@),
{
    let mut r: Vec<usize> = Vec::new();
    let mut i: usize = 0;
    while i < windows.len()
        invariant
            i <= windows@.len(),
            r@.map_values(|k: usize| k as nat) == matching(window_views(windows@).take(i as int), target@),
        decreases windows.len() - i,
    {
        proof {
            assert(window_views(windows@).take(i as int + 1).drop_last() =~= window_views(windows@).take(i as int));
            assert(window_views(windows@).take(i as int + 1).last() == (windows@[i as int].0@, windows@[i as int].1@));
        }
        if crate::text::str_eq(windows[i].1.as_str(), target) || crate::text::str_eq(windows[i].0.as_str(), target) {
            let ghost before = r@;
            r.push(i);
            assert(r@.map_values(|k: usize| k as nat) =~= before.map_values(|k: usize| k as nat).push(i as nat));
        }
        i = i + 1;
    }
    assert(window_views(windows@).take(i as int) =~= window_views(windows@));
    r
}

} // verus!
