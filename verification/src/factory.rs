//! How a widget template's elements are read: the variables a template sees,
//! what each attribute means for each kind of element, which variables drive
//! which attributes, and which variables get refresh timers.
use vstd::prelude::*;
use crate::ordered::{var_entries, var_map_get_index, var_map_len};
use crate::strmap::StrMap;
use crate::template::{has_placeholder, interpolate, interpolated, placeholder_names, placeholders};
use crate::text::{
    parse_i32, parse_signed, parse_u32, parse_unsigned, split_whitespace, split_ws, str_eq,
    str_starts_with, starts_with, views,
};
use crate::widgets::{VarDef, WidgetDefinition};

verus! {

// ---- variables --------------------------------------------------------------

/// The variable values a definition starts from: each variable's default.
pub open spec fn defaults_of(s: Seq<(Seq<char>, VarDef)>) -> Map<Seq<char>, Seq<char>>
    decreases s.len(),
{
    if s.len() == 0 {
        Map::empty()
    } else {
        defaults_of(s.drop_last()).insert(s.last().0, s.last().1.default@)
    }
}

/// `m` with the instance's `name: value` pairs applied in order.
pub open spec fn with_overrides(m: Map<Seq<char>, Seq<char>>, s: Seq<(String, String)>) -> Map<Seq<char>, Seq<char>>
    decreases s.len(),
{
    if s.len() == 0 {
        m
    } else {
        with_overrides(m, s.drop_last()).insert(s.last().0@, s.last().1@)
    }
}

/// The text of each value of a string map.
pub open spec fn texts(m: Map<Seq<char>, String>) -> Map<Seq<char>, Seq<char>> {
    m.map_values(|v: String| v@)
}

/// The variables a template of `definition` sees: the definition's defaults,
/// overridden by the instance's own values.
pub open spec fn merged_vars(definition: WidgetDefinition, instance_vars: Option<Vec<(String, String)>>) -> Map<Seq<char>, Seq<char>> {
    let d = defaults_of(var_entries(definition.vars));
    match instance_vars {
        Some(v) => with_overrides(d, v@),
        None => d,
    }
}

/// The variables for one widget instance: the definition's defaults, then the
/// instance's values.
pub fn merge_vars(definition: &WidgetDefinition, instance_vars: &Option<Vec<(String, String)>>) -> (r: StrMap<String>)
    ensures
        texts(r@) == merged_vars(*definition, *instance_vars),
{
    let mut m: StrMap<String> = StrMap::new();
    let n = var_map_len(&definition.vars);
    let mut i: usize = 0;
    assert(texts(m@) =~= defaults_of(var_entries(definition.vars).take(0)));
    while i < n
        invariant
            n == var_entries(definition.vars).len(),
            i <= n,
            texts(m@) == defaults_of(var_entries(definition.vars).take(i as int)),
        decreases n - i,
    {
        match var_map_get_index(&definition.vars, i) {
            Some((k, v)) => {
                let ghost before = texts(m@);
                m.insert(k.clone(), v.default.clone());
                let ghost e = var_entries(definition.vars);
                assert(e.take(i as int + 1).drop_last() =~= e.take(i as int));
                assert(texts(m@) =~= before.insert(k@, v.default@));
            },
            None => {},
        }
        i = i + 1;
    }
    assert(var_entries(definition.vars).take(n as int) =~= var_entries(definition.vars));
    match instance_vars {
        Some(vs) => {
            let ghost d = texts(m@);
            let mut j: usize = 0;
            assert(vs@.take(0) =~= Seq::<(String, String)>::empty());
            while j < vs.len()
                invariant
                    j <= vs@.len(),
                    texts(m@) == with_overrides(d, vs@.take(j as int)),
                decreases vs.len() - j,
            {
                let ghost before = texts(m@);
                m.insert(vs[j].0.clone(), vs[j].1.clone());
                assert(vs@.take(j as int + 1).drop_last() =~= vs@.take(j as int));
                assert(texts(m@) =~= before.insert(vs@[j as int].0@, vs@[j as int].1@));
                j = j + 1;
            }
            assert(vs@.take(j as int) =~= vs@);
        },
        None => {},
    }
    m
}

/// The interpolated value of attribute `key`, if the element has it.
pub open spec fn attr_value(raw: Map<Seq<char>, String>, key: Seq<char>, vars: Map<Seq<char>, String>) -> Option<Seq<char>> {
    if raw.contains_key(key) {
        Some(interpolated(raw[key]@, vars))
    } else {
        None
    }
}

/// Attribute `key` of an element, with its placeholders interpolated.
pub fn attr(raw: &StrMap<String>, key: &str, vars: &StrMap<String>) -> (r: Option<String>)
    ensures
        match r {
            Some(v) => attr_value(raw@, key@, vars@) == Some(v@),
            None => attr_value(raw@, key@, vars@) is None,
        },
{
    match raw.get(key) {
        Some(t) => Some(interpolate(t.as_str(), vars)),
        None => None,
    }
}

/// An `i32` attribute, when present and well-formed.
pub open spec fn int_attr(v: Option<Seq<char>>) -> Option<int> {
    match v {
        Some(s) => parse_signed(s, i32::MIN as int, i32::MAX as int),
        None => None,
    }
}

/// A `u32` attribute, when present and well-formed.
pub open spec fn nat_attr(v: Option<Seq<char>>) -> Option<nat> {
    match v {
        Some(s) => parse_unsigned(s, u32::MAX as nat),
        None => None,
    }
}

/// A flag attribute: set when its value is exactly `true`.
pub open spec fn flag_attr(v: Option<Seq<char>>) -> bool {
    v == Some("true"@)
}

fn int_attr_exec(v: &Option<String>) -> (r: Option<i32>)
    ensures
        match r {
            Some(n) => int_attr(opt_text(*v)) == Some(n as int),
            None => int_attr(opt_text(*v)) is None,
        },
{
    match v {
        Some(s) => parse_i32(s.as_str()),
        None => None,
    }
}

fn flag_attr_exec(v: &Option<String>) -> (b: bool)
    ensures
        b == flag_attr(opt_text(*v)),
{
    match v {
        Some(s) => str_eq(s.as_str(), "true"),
        None => false,
    }
}

/// The text of an optional string.
pub open spec fn opt_text(v: Option<String>) -> Option<Seq<char>> {
    match v {
        Some(s) => Some(s@),
        None => None,
    }
}

// ---- attribute values -------------------------------------------------------

/// Orientation of a box, bar or separator.
#[derive(Debug, Clone, Copy, PartialEq, Eq, Structural)]
pub enum Orientation {
    Horizontal,
    Vertical,
}

/// `h` or `horizontal` is horizontal; anything else (or nothing) vertical.
pub open spec fn orientation_of(s: Option<Seq<char>>) -> Orientation {
    if s == Some("h"@) || s == Some("horizontal"@) {
        Orientation::Horizontal
    } else {
        Orientation::Vertical
    }
}

pub fn parse_orientation(s: Option<&str>) -> (r: Orientation)
    ensures
        r == orientation_of(crate::ipc::opt_view(s)),
{
    match s {
        Some(v) => {
            if str_eq(v, "h") || str_eq(v, "horizontal") {
                Orientation::Horizontal
            } else {
                Orientation::Vertical
            }
        },
        None => Orientation::Vertical,
    }
}

/// Alignment of a widget within its parent.
#[derive(Debug, Clone, Copy, PartialEq, Eq, Structural)]
pub enum Align {
    Start,
    End,
    Center,
    Fill,
}

pub open spec fn align_of(s: Seq<char>) -> Align {
    if s == "start"@ {
        Align::Start
    } else if s == "end"@ {
        Align::End
    } else if s == "center"@ {
        Align::Center
    } else {
        Align::Fill
    }
}

/// `start`, `end`, `center`; anything else fills.
pub fn parse_align(s: &str) -> (r: Align)
    ensures
        r == align_of(s@),
{
    if str_eq(s, "start") {
        Align::Start
    } else if str_eq(s, "end") {
        Align::End
    } else if str_eq(s, "center") {
        Align::Center
    } else {
        Align::Fill
    }
}

/// Where a label elides text that does not fit.
#[derive(Debug, Clone, Copy, PartialEq, Eq, Structural)]
pub enum Ellipsize {
    Never,
    Start,
    Middle,
    End,
}

pub open spec fn ellipsize_of(s: Seq<char>) -> Ellipsize {
    if s == "start"@ {
        Ellipsize::Start
    } else if s == "middle"@ {
        Ellipsize::Middle
    } else if s == "end"@ {
        Ellipsize::End
    } else {
        Ellipsize::Never
    }
}

/// `start`, `middle`, `end`; anything else does not elide.
pub fn parse_ellipsize(s: &str) -> (r: Ellipsize)
    ensures
        r == ellipsize_of(s@),
{
    if str_eq(s, "start") {
        Ellipsize::Start
    } else if str_eq(s, "middle") {
        Ellipsize::Middle
    } else if str_eq(s, "end") {
        Ellipsize::End
    } else {
        Ellipsize::Never
    }
}

/// Animation of a revealer.
#[derive(Debug, Clone, Copy, PartialEq, Eq, Structural)]
pub enum RevealerTransition {
    NoAnimation,
    SlideRight,
    SlideLeft,
    SlideDown,
    SlideUp,
    Crossfade,
}

pub open spec fn transition_of(s: Seq<char>) -> RevealerTransition {
    if s == "slide-right"@ {
        RevealerTransition::SlideRight
    } else if s == "slide-left"@ {
        RevealerTransition::SlideLeft
    } else if s == "slide-down"@ {
        RevealerTransition::SlideDown
    } else if s == "slide-up"@ {
        RevealerTransition::SlideUp
    } else if s == "crossfade"@ {
        RevealerTransition::Crossfade
    } else {
        RevealerTransition::NoAnimation
    }
}

pub fn parse_revealer_transition(s: &str) -> (r: RevealerTransition)
    ensures
        r == transition_of(s@),
{
    if str_eq(s, "slide-right") {
        RevealerTransition::SlideRight
    } else if str_eq(s, "slide-left") {
        RevealerTransition::SlideLeft
    } else if str_eq(s, "slide-down") {
        RevealerTransition::SlideDown
    } else if str_eq(s, "slide-up") {
        RevealerTransition::SlideUp
    } else if str_eq(s, "crossfade") {
        RevealerTransition::Crossfade
    } else {
        RevealerTransition::NoAnimation
    }
}

// ---- elements ---------------------------------------------------------------

/// The kinds of element a template may hold.
#[derive(Debug, Clone, Copy, PartialEq, Eq, Structural)]
pub enum ElementKind {
    Box,
    Label,
    Button,
    Image,
    LevelBar,
    ProgressBar,
    Scale,
    Separator,
    Drawing,
    Revealer,
    Overlay,
    Grid,
    Scrolled,
    /// An unknown tag, built as a vertical box
    Unknown,
}

pub open spec fn kind_of(tag: Seq<char>) -> ElementKind {
    if tag == "box"@ {
        ElementKind::Box
    } else if tag == "label"@ {
        ElementKind::Label
    } else if tag == "button"@ {
        ElementKind::Button
    } else if tag == "image"@ {
        ElementKind::Image
    } else if tag == "levelbar"@ {
        ElementKind::LevelBar
    } else if tag == "progressbar"@ {
        ElementKind::ProgressBar
    } else if tag == "scale"@ {
        ElementKind::Scale
    } else if tag == "separator"@ {
        ElementKind::Separator
    } else if tag == "drawing"@ {
        ElementKind::Drawing
    } else if tag == "revealer"@ {
        ElementKind::Revealer
    } else if tag == "overlay"@ {
        ElementKind::Overlay
    } else if tag == "grid"@ {
        ElementKind::Grid
    } else if tag == "scrolled"@ {
        ElementKind::Scrolled
    } else {
        ElementKind::Unknown
    }
}

/// The kind of element a (lower-case) tag names.
pub fn element_kind(tag: &str) -> (k: ElementKind)
    ensures
        k == kind_of(tag@),
{
    if str_eq(tag, "box") {
        ElementKind::Box
    } else if str_eq(tag, "label") {
        ElementKind::Label
    } else if str_eq(tag, "button") {
        ElementKind::Button
    } else if str_eq(tag, "image") {
        ElementKind::Image
    } else if str_eq(tag, "levelbar") {
        ElementKind::LevelBar
    } else if str_eq(tag, "progressbar") {
        ElementKind::ProgressBar
    } else if str_eq(tag, "scale") {
        ElementKind::Scale
    } else if str_eq(tag, "separator") {
        ElementKind::Separator
    } else if str_eq(tag, "drawing") {
        ElementKind::Drawing
    } else if str_eq(tag, "revealer") {
        ElementKind::Revealer
    } else if str_eq(tag, "overlay") {
        ElementKind::Overlay
    } else if str_eq(tag, "grid") {
        ElementKind::Grid
    } else if str_eq(tag, "scrolled") {
        ElementKind::Scrolled
    } else {
        ElementKind::Unknown
    }
}

/// Tags whose children nest inside them: box, grid, scrolled, revealer,
/// overlay, and button (a button's child is its content).
pub open spec fn is_container_tag(tag: Seq<char>) -> bool {
    tag == "box"@ || tag == "grid"@ || tag == "scrolled"@ || tag == "revealer"@ || tag == "overlay"@
        || tag == "button"@
}

pub fn is_container(tag: &str) -> (b: bool)
    ensures
        b == is_container_tag(tag@),
{
    str_eq(tag, "box") || str_eq(tag, "grid") || str_eq(tag, "scrolled") || str_eq(tag, "revealer")
        || str_eq(tag, "overlay") || str_eq(tag, "button")
}

/// Attributes every element understands.
#[derive(Debug, Clone)]
pub struct CommonAttrs {
    /// CSS classes (the `class` attribute split on whitespace)
    pub classes: Vec<String>,
    /// Widget name (`id`)
    pub id: Option<String>,
    /// Size request from `min-width` / `min-height` (-1: unconstrained)
    pub size_request: Option<(i32, i32)>,
    pub hexpand: bool,
    pub vexpand: bool,
    /// Margin on all four sides
    pub margin: Option<i32>,
}

/// The size request `min-width` / `min-height` give: both, one side, or none.
pub open spec fn size_request_of(w: Option<int>, h: Option<int>) -> Option<(int, int)> {
    match (w, h) {
        (Some(a), Some(b)) => Some((a, b)),
        (Some(a), None) => Some((a, -1)),
        (None, Some(b)) => Some((-1, b)),
        (None, None) => None,
    }
}

/// The attributes every element understands, read from its raw attributes.
pub fn common_attrs(raw: &StrMap<String>, vars: &StrMap<String>) -> (c: CommonAttrs)
    ensures
        views(c.classes@) == (match attr_value(raw@, "class"@, vars@) {
            Some(s) => split_ws(s),
            None => Seq::empty(),
        }),
        opt_text(c.id) == attr_value(raw@, "id"@, vars@),
        match c.size_request {
            Some((w, h)) => size_request_of(int_attr(attr_value(raw@, "min-width"@, vars@)), int_attr(attr_value(raw@, "min-height"@, vars@))) == Some((w as int, h as int)),
            None => size_request_of(int_attr(attr_value(raw@, "min-width"@, vars@)), int_attr(attr_value(raw@, "min-height"@, vars@))) is None,
        },
        c.hexpand == flag_attr(attr_value(raw@, "hexpand"@, vars@)),
        c.vexpand == flag_attr(attr_value(raw@, "vexpand"@, vars@)),
        match c.margin {
            Some(m) => int_attr(attr_value(raw@, "margin"@, vars@)) == Some(m as int),
            None => int_attr(attr_value(raw@, "margin"@, vars@)) is None,
        },
{
    let classes = match attr(raw, "class", vars) {
        Some(s) => split_whitespace(s.as_str()),
        None => Vec::new(),
    };
    proof {
        assert(views(Seq::<String>::empty()) =~= Seq::<Seq<char>>::empty());
    }
    let id = attr(raw, "id", vars);
    let w = int_attr_exec(&attr(raw, "min-width", vars));
    let h = int_attr_exec(&attr(raw, "min-height", vars));
    let size_request = match (w, h) {
        (Some(a), Some(b)) => Some((a, b)),
        (Some(a), None) => Some((a, -1i32)),
        (None, Some(b)) => Some((-1i32, b)),
        (None, None) => None,
    };
    let hexpand = flag_attr_exec(&attr(raw, "hexpand", vars));
    let vexpand = flag_attr_exec(&attr(raw, "vexpand", vars));
    let margin = int_attr_exec(&attr(raw, "margin", vars));
    CommonAttrs { classes, id, size_request, hexpand, vexpand, margin }
}


#[allow(inconsistent_fields)]
/// How each kind of element reads its own attributes (the numeric values of
/// bars and scales, which are fractional, are read by the renderer itself).
#[derive(Debug, Clone)]
pub enum ElementSpec {
    Box { orientation: Orientation, spacing: i32, halign: Option<Align>, valign: Option<Align>, hexpand: bool, vexpand: bool, homogeneous: bool },
    Label { text: String, halign: Option<Align>, ellipsize: Option<Ellipsize>, max_width_chars: Option<i32>, wrap: bool, selectable: bool, markup: Option<String> },
    Button { content: ButtonContent, action: Option<String>, tooltip: Option<String> },
    Image { source: ImageSource, pixel_size: Option<i32>, size_request: Option<(i32, i32)> },
    LevelBar { orientation: Option<Orientation>, hexpand: bool },
    ProgressBar { text: Option<String>, show_text: bool },
    Scale { orientation: Orientation, draw_value: bool, hexpand: bool, action: Option<String> },
    Separator { orientation: Orientation },
    Drawing { width: Option<i32>, height: Option<i32>, hexpand: bool },
    Revealer { transition: Option<RevealerTransition>, duration: Option<u32> },
    Overlay,
    Grid { row_spacing: Option<i32>, col_spacing: Option<i32>, row_homogeneous: bool },
    Scrolled { vexpand: bool, hscrollbar: Option<ScrollPolicy>, vscrollbar: Option<ScrollPolicy> },
    /// Unknown tag: a vertical box with no spacing
    Unknown,
}

/// When a scrolled area shows a scrollbar.
#[derive(Debug, Clone, Copy, PartialEq, Eq, Structural)]
pub enum ScrollPolicy {
    Automatic,
    Always,
    Never,
}

/// `always`, `never`; anything else automatic.
pub open spec fn scroll_policy_of(s: Seq<char>) -> ScrollPolicy {
    if s == "always"@ {
        ScrollPolicy::Always
    } else if s == "never"@ {
        ScrollPolicy::Never
    } else {
        ScrollPolicy::Automatic
    }
}

pub fn parse_scroll_policy(s: &str) -> (r: ScrollPolicy)
    ensures
        r == scroll_policy_of(s@),
{
    if str_eq(s, "always") {
        ScrollPolicy::Always
    } else if str_eq(s, "never") {
        ScrollPolicy::Never
    } else {
        ScrollPolicy::Automatic
    }
}

fn scroll_attr(v: &Option<String>) -> (r: Option<ScrollPolicy>)
    ensures
        r == (match opt_text(*v) {
            Some(t) => Some(scroll_policy_of(t)),
            None => None,
        }),
{
    match v {
        Some(t) => Some(parse_scroll_policy(t.as_str())),
        None => None,
    }
}

/// What a button shows.
#[derive(Debug, Clone)]
pub enum ButtonContent {
    Icon(String),
    Label(String),
    Plain,
}

/// What an image shows initially.
#[derive(Debug, Clone)]
pub enum ImageSource {
    File(String),
    Icon(String),
    Plain,
}

pub open spec fn opt_int(o: Option<i32>) -> Option<int> {
    match o {
        Some(v) => Some(v as int),
        None => None,
    }
}

pub open spec fn opt_align(v: Option<Seq<char>>) -> Option<Align> {
    match v {
        Some(s) => Some(align_of(s)),
        None => None,
    }
}

fn align_attr(v: &Option<String>) -> (r: Option<Align>)
    ensures
        r == opt_align(opt_text(*v)),
{
    match v {
        Some(s) => Some(parse_align(s.as_str())),
        None => None,
    }
}

/// The element spec a tag and its attributes describe.
pub open spec fn spec_of(tag: Seq<char>, raw: Map<Seq<char>, String>, vars: Map<Seq<char>, String>, e: ElementSpec) -> bool {
    let a = |k: Seq<char>| attr_value(raw, k, vars);
    match kind_of(tag) {
        ElementKind::Box => e matches ElementSpec::Box { orientation, spacing, halign, valign, hexpand, vexpand, homogeneous }
            && orientation == orientation_of(a("orientation"@))
            && spacing as int == (match int_attr(a("spacing"@)) { Some(n) => n, None => 0 })
            && halign == opt_align(a("halign"@)) && valign == opt_align(a("valign"@))
            && hexpand == flag_attr(a("hexpand"@)) && vexpand == flag_attr(a("vexpand"@))
            && homogeneous == flag_attr(a("homogeneous"@)),
        ElementKind::Label => e matches ElementSpec::Label { text, halign, ellipsize, max_width_chars, wrap, selectable, markup }
            && text@ == (match a("text"@) { Some(t) => t, None => Seq::empty() })
            && halign == opt_align(a("halign"@))
            && ellipsize == (match a("ellipsize"@) { Some(t) => Some(ellipsize_of(t)), None => None })
            && opt_int(max_width_chars) == int_attr(a("max-width-chars"@))
            && wrap == flag_attr(a("wrap"@))
            && selectable == flag_attr(a("selectable"@))
            && opt_text(markup) == a("markup"@),
        ElementKind::Button => e matches ElementSpec::Button { content, action, tooltip }
            && (match a("icon"@) {
                Some(i) => content matches ButtonContent::Icon(x) && x@ == i,
                None => match a("label"@) {
                    Some(l) => content matches ButtonContent::Label(x) && x@ == l,
                    None => content is Plain,
                },
            })
            && opt_text(action) == a("action"@) && opt_text(tooltip) == a("tooltip"@),
        ElementKind::Image => e matches ElementSpec::Image { source, pixel_size, size_request }
            && (match a("file"@) {
                Some(f) => source matches ImageSource::File(x) && x@ == f,
                None => match a("src"@) {
                    Some(f) => source matches ImageSource::File(x) && x@ == f,
                    None => match a("icon"@) {
                        Some(i) => source matches ImageSource::Icon(x) && x@ == i,
                        None => match a("fallback-icon"@) {
                            Some(i) => source matches ImageSource::Icon(x) && x@ == i,
                            None => source is Plain,
                        },
                    },
                },
            })
            && opt_int(pixel_size) == int_attr(a("pixel-size"@))
            && (match int_attr(a("width"@)) {
                Some(w) => size_request matches Some((x, y)) && x as int == w
                    && y as int == (match int_attr(a("height"@)) { Some(h) => h, None => -1 }),
                None => size_request is None,
            }),
        ElementKind::LevelBar => e matches ElementSpec::LevelBar { orientation, hexpand }
            && orientation == (match a("orientation"@) { Some(o) => Some(orientation_of(Some(o))), None => None })
            && hexpand == flag_attr(a("hexpand"@)),
        ElementKind::ProgressBar => e matches ElementSpec::ProgressBar { text, show_text } && opt_text(text) == a("text"@)
            && show_text == (a("text"@) is Some || flag_attr(a("show-text"@))),
        ElementKind::Scale => e matches ElementSpec::Scale { orientation, draw_value, hexpand, action }
            && orientation == orientation_of(a("orientation"@))
            && draw_value == flag_attr(a("draw-value"@))
            && hexpand == flag_attr(a("hexpand"@))
            && opt_text(action) == a("action"@),
        ElementKind::Separator => e matches ElementSpec::Separator { orientation }
            && orientation == orientation_of(a("orientation"@)),
        ElementKind::Drawing => e matches ElementSpec::Drawing { width, height, hexpand }
            && opt_int(width) == int_attr(a("width"@)) && opt_int(height) == int_attr(a("height"@))
            && hexpand == flag_attr(a("hexpand"@)),
        ElementKind::Revealer => e matches ElementSpec::Revealer { transition, duration }
            && transition == (match a("transition"@) { Some(t) => Some(transition_of(t)), None => None })
            && (match duration { Some(d) => nat_attr(a("duration"@)) == Some(d as nat), None => nat_attr(a("duration"@)) is None }),
        ElementKind::Overlay => e is Overlay,
        ElementKind::Grid => e matches ElementSpec::Grid { row_spacing, col_spacing, row_homogeneous }
            && row_homogeneous == flag_attr(a("row-homogeneous"@))
            && opt_int(row_spacing) == int_attr(a("row-spacing"@))
            && opt_int(col_spacing) == (match a("column-spacing"@) {
                Some(_) => int_attr(a("column-spacing"@)),
                None => int_attr(a("col-spacing"@)),
            }),
        ElementKind::Scrolled => e matches ElementSpec::Scrolled { vexpand, hscrollbar, vscrollbar }
            && vexpand == flag_attr(a("vexpand"@))
            && hscrollbar == (match a("hscrollbar"@) { Some(t) => Some(scroll_policy_of(t)), None => None })
            && vscrollbar == (match a("vscrollbar"@) { Some(t) => Some(scroll_policy_of(t)), None => None }),
        ElementKind::Unknown => e is Unknown,
    }
}

/// Read an element's own attributes according to its tag.
pub fn element_spec(tag: &str, raw: &StrMap<String>, vars: &StrMap<String>) -> (e: ElementSpec)
    ensures
        spec_of(tag@, raw@, vars@, e),
{
    match element_kind(tag) {
        ElementKind::Box => {
            let orientation = match attr(raw, "orientation", vars) {
                Some(o) => parse_orientation(Some(o.as_str())),
                None => parse_orientation(None),
            };
            let spacing = match int_attr_exec(&attr(raw, "spacing", vars)) {
                Some(n) => n,
                None => 0,
            };
            ElementSpec::Box {
                orientation,
                spacing,
                halign: align_attr(&attr(raw, "halign", vars)),
                valign: align_attr(&attr(raw, "valign", vars)),
                hexpand: flag_attr_exec(&attr(raw, "hexpand", vars)),
                vexpand: flag_attr_exec(&attr(raw, "vexpand", vars)),
                homogeneous: flag_attr_exec(&attr(raw, "homogeneous", vars)),
            }
        },
        ElementKind::Label => {
            let text = match attr(raw, "text", vars) {
                Some(t) => t,
                None => String::new(),
            };
            let ellipsize = match attr(raw, "ellipsize", vars) {
                Some(t) => Some(parse_ellipsize(t.as_str())),
                None => None,
            };
            ElementSpec::Label {
                text,
                halign: align_attr(&attr(raw, "halign", vars)),
                ellipsize,
                max_width_chars: int_attr_exec(&attr(raw, "max-width-chars", vars)),
                wrap: flag_attr_exec(&attr(raw, "wrap", vars)),
                selectable: flag_attr_exec(&attr(raw, "selectable", vars)),
                markup: attr(raw, "markup", vars),
            }
        },
        ElementKind::Button => {
            let content = match attr(raw, "icon", vars) {
                Some(i) => ButtonContent::Icon(i),
                None => match attr(raw, "label", vars) {
                    Some(l) => ButtonContent::Label(l),
                    None => ButtonContent::Plain,
                },
            };
            ElementSpec::Button { content, action: attr(raw, "action", vars), tooltip: attr(raw, "tooltip", vars) }
        },
        ElementKind::Image => {
            let source = match attr(raw, "file", vars) {
                Some(f) => ImageSource::File(f),
                None => match attr(raw, "src", vars) {
                    Some(f) => ImageSource::File(f),
                    None => match attr(raw, "icon", vars) {
                        Some(i) => ImageSource::Icon(i),
                        None => match attr(raw, "fallback-icon", vars) {
                            Some(i) => ImageSource::Icon(i),
                            None => ImageSource::Plain,
                        },
                    },
                },
            };
            let size_request = match int_attr_exec(&attr(raw, "width", vars)) {
                Some(w) => {
                    let h = match int_attr_exec(&attr(raw, "height", vars)) {
                        Some(h) => h,
                        None => -1i32,
                    };
                    Some((w, h))
                },
                None => None,
            };
            ElementSpec::Image {
                source,
                pixel_size: int_attr_exec(&attr(raw, "pixel-size", vars)),
                size_request,
            }
        },
        ElementKind::LevelBar => {
            let orientation = match attr(raw, "orientation", vars) {
                Some(o) => Some(parse_orientation(Some(o.as_str()))),
                None => None,
            };
            ElementSpec::LevelBar { orientation, hexpand: flag_attr_exec(&attr(raw, "hexpand", vars)) }
        },
        ElementKind::ProgressBar => {
            let text = attr(raw, "text", vars);
            let show_text = text.is_some() || flag_attr_exec(&attr(raw, "show-text", vars));
            ElementSpec::ProgressBar { text, show_text }
        },
        ElementKind::Scale => {
            let orientation = match attr(raw, "orientation", vars) {
                Some(o) => parse_orientation(Some(o.as_str())),
                None => parse_orientation(None),
            };
            ElementSpec::Scale {
                orientation,
                draw_value: flag_attr_exec(&attr(raw, "draw-value", vars)),
                hexpand: flag_attr_exec(&attr(raw, "hexpand", vars)),
                action: attr(raw, "action", vars),
            }
        },
        ElementKind::Separator => {
            let orientation = match attr(raw, "orientation", vars) {
                Some(o) => parse_orientation(Some(o.as_str())),
                None => parse_orientation(None),
            };
            ElementSpec::Separator { orientation }
        },
        ElementKind::Drawing => ElementSpec::Drawing {
            width: int_attr_exec(&attr(raw, "width", vars)),
            height: int_attr_exec(&attr(raw, "height", vars)),
            hexpand: flag_attr_exec(&attr(raw, "hexpand", vars)),
        },
        ElementKind::Revealer => {
            let transition = match attr(raw, "transition", vars) {
                Some(t) => Some(parse_revealer_transition(t.as_str())),
                None => None,
            };
            let duration = match attr(raw, "duration", vars) {
                Some(d) => parse_u32(d.as_str()),
                None => None,
            };
            ElementSpec::Revealer { transition, duration }
        },
        ElementKind::Overlay => ElementSpec::Overlay,
        ElementKind::Grid => ElementSpec::Grid {
            row_spacing: int_attr_exec(&attr(raw, "row-spacing", vars)),
            col_spacing: match attr(raw, "column-spacing", vars) {
                Some(c) => int_attr_exec(&Some(c)),
                None => int_attr_exec(&attr(raw, "col-spacing", vars)),
            },
            row_homogeneous: flag_attr_exec(&attr(raw, "row-homogeneous", vars)),
        },
        ElementKind::Scrolled => ElementSpec::Scrolled {
            vexpand: flag_attr_exec(&attr(raw, "vexpand", vars)),
            hscrollbar: scroll_attr(&attr(raw, "hscrollbar", vars)),
            vscrollbar: scroll_attr(&attr(raw, "vscrollbar", vars)),
        },
        ElementKind::Unknown => ElementSpec::Unknown,
    }
}

// ---- actions and live updates -----------------------------------------------

/// The shell command a button action runs (`namespace::command`), if known.
pub open spec fn action_shell(action: Seq<char>) -> Option<Seq<char>> {
    if action == "media::play_pause"@ {
        Some("playerctl play-pause"@)
    } else if action == "media::prev"@ {
        Some("playerctl previous"@)
    } else if action == "media::next"@ {
        Some("playerctl next"@)
    } else if action == "media::stop"@ {
        Some("playerctl stop"@)
    } else if action == "volume::mute_toggle"@ {
        Some("wpctl set-mute @DEFAULT_AUDIO_SINK@ toggle"@)
    } else if action == "volume::up"@ {
        Some("wpctl set-volume @DEFAULT_AUDIO_SINK@ 5%+"@)
    } else if action == "volume::down"@ {
        Some("wpctl set-volume @DEFAULT_AUDIO_SINK@ 5%-"@)
    } else if action == "launcher::open"@ {
        Some("rofi -show drun || wofi --show drun || fuzzel"@)
    } else {
        None
    }
}

/// The volume buttons step the default sink's volume by 5%: `volume::up`
/// raises it (`5%+`), `volume::down` lowers it (`5%-`), so the two differ;
/// and every `wpctl set-volume` command a button runs is one of these two.
pub proof fn law_volume_buttons(action: Seq<char>)
    ensures
        action_shell("volume::up"@) == Some("wpctl set-volume @DEFAULT_AUDIO_SINK@ 5%"@.push('+')),
        action_shell("volume::down"@) == Some("wpctl set-volume @DEFAULT_AUDIO_SINK@ 5%"@.push('-')),
        action_shell("volume::up"@) != action_shell("volume::down"@),
        action_shell(action) matches Some(c) && starts_with(c, "wpctl set-volume"@) ==> action == "volume::up"@
            || action == "volume::down"@,
{
    reveal_strlit("media::play_pause");
    reveal_strlit("media::prev");
    reveal_strlit("media::next");
    reveal_strlit("media::stop");
    reveal_strlit("volume::mute_toggle");
    reveal_strlit("volume::up");
    reveal_strlit("volume::down");
    reveal_strlit("launcher::open");
    reveal_strlit("playerctl play-pause");
    reveal_strlit("playerctl previous");
    reveal_strlit("playerctl next");
    reveal_strlit("playerctl stop");
    reveal_strlit("wpctl set-mute @DEFAULT_AUDIO_SINK@ toggle");
    reveal_strlit("wpctl set-volume @DEFAULT_AUDIO_SINK@ 5%+");
    reveal_strlit("wpctl set-volume @DEFAULT_AUDIO_SINK@ 5%-");
    reveal_strlit("rofi -show drun || wofi --show drun || fuzzel");
    reveal_strlit("wpctl set-volume @DEFAULT_AUDIO_SINK@ 5%");
    reveal_strlit("wpctl set-volume");
    assert("wpctl set-volume @DEFAULT_AUDIO_SINK@ 5%+"@ =~= "wpctl set-volume @DEFAULT_AUDIO_SINK@ 5%"@.push('+'));
    assert("wpctl set-volume @DEFAULT_AUDIO_SINK@ 5%-"@ =~= "wpctl set-volume @DEFAULT_AUDIO_SINK@ 5%"@.push('-'));
    assert("wpctl set-volume @DEFAULT_AUDIO_SINK@ 5%+"@[40] != "wpctl set-volume @DEFAULT_AUDIO_SINK@ 5%-"@[40]);
    let up = "volume::up"@;
    let down = "volume::down"@;
    assert(up.len() != "media::play_pause"@.len() && up.len() != "media::prev"@.len() && up.len()
        != "media::next"@.len() && up.len() != "media::stop"@.len() && up.len() != "volume::mute_toggle"@.len());
    assert(down.len() != "media::play_pause"@.len() && down.len() != "media::prev"@.len()
        && down.len() != "media::stop"@.len() && down.len() != "volume::mute_toggle"@.len() && down.len()
        != up.len());
    assert(down[0] != "media::next"@[0]);
    assert(action_shell(up) == Some("wpctl set-volume @DEFAULT_AUDIO_SINK@ 5%+"@));
    assert(action_shell(down) == Some("wpctl set-volume @DEFAULT_AUDIO_SINK@ 5%-"@));
    if let Some(c) = action_shell(action) {
        if starts_with(c, "wpctl set-volume"@) {
            let p = "wpctl set-volume"@;
            if c == "playerctl play-pause"@ || c == "playerctl previous"@ || c == "playerctl next"@ || c
                == "playerctl stop"@ {
                assert(c.take(16)[0] != p[0]);
            } else if c == "wpctl set-mute @DEFAULT_AUDIO_SINK@ toggle"@ {
                assert(c.take(16)[10] != p[10]);
            } else if c == "rofi -show drun || wofi --show drun || fuzzel"@ {
                assert(c.take(16)[0] != p[0]);
            }
        }
    }
}

/// Whether a scale's action sets the output volume to the scale's value
/// (`volume::set`, or its short form `vol::set`).
pub open spec fn sets_volume(action: Seq<char>) -> bool {
    action == "volume::set"@ || action == "vol::set"@
}

pub fn scale_sets_volume(action: &str) -> (b: bool)
    ensures
        b == sets_volume(action@),
{
    str_eq(action, "volume::set") || str_eq(action, "vol::set")
}

/// The shell command a button action runs, or `None` for an unknown action.
pub fn action_command(action: &str) -> (r: Option<&'static str>)
    ensures
        match r {
            Some(c) => action_shell(action@) == Some(c@),
            None => action_shell(action@) is None,
        },
{
    if str_eq(action, "media::play_pause") {
        Some("playerctl play-pause")
    } else if str_eq(action, "media::prev") {
        Some("playerctl previous")
    } else if str_eq(action, "media::next") {
        Some("playerctl next")
    } else if str_eq(action, "media::stop") {
        Some("playerctl stop")
    } else if str_eq(action, "volume::mute_toggle") {
        Some("wpctl set-mute @DEFAULT_AUDIO_SINK@ toggle")
    } else if str_eq(action, "volume::up") {
        Some("wpctl set-volume @DEFAULT_AUDIO_SINK@ 5%+")
    } else if str_eq(action, "volume::down") {
        Some("wpctl set-volume @DEFAULT_AUDIO_SINK@ 5%-")
    } else if str_eq(action, "launcher::open") {
        Some("rofi -show drun || wofi --show drun || fuzzel")
    } else {
        None
    }
}

/// How an image shows a freshly rendered value.
#[derive(Debug, Clone, Copy, PartialEq, Eq, Structural)]
pub enum ImageUpdate {
    /// Load the value as a file path
    FromFile,
    /// Show the value as an icon name
    Icon,
    /// Leave the image as it is
    Keep,
}

pub open spec fn image_update_of(v: Seq<char>) -> ImageUpdate {
    if starts_with(v, "/"@) || starts_with(v, "~/"@) {
        ImageUpdate::FromFile
    } else if v.len() > 0 {
        ImageUpdate::Icon
    } else {
        ImageUpdate::Keep
    }
}

/// A value starting with `/` or `~/` is a file; any other non-empty value an icon name.
pub fn image_update(rendered: &str) -> (r: ImageUpdate)
    ensures
        r == image_update_of(rendered@),
{
    if str_starts_with(rendered, "/") || str_starts_with(rendered, "~/") {
        ImageUpdate::FromFile
    } else if !rendered.is_empty() {
        ImageUpdate::Icon
    } else {
        ImageUpdate::Keep
    }
}

/// One attribute of one element that a variable drives: when the variable
/// changes, the attribute is re-rendered from `template`.
#[derive(Debug, Clone)]
pub struct VarBinding {
    pub var: String,
    pub template: String,
}

/// The attributes whose values follow their variables.
pub open spec fn bound_keys() -> Seq<Seq<char>> {
    seq!["text"@, "markup"@, "value"@, "icon"@, "file"@, "src"@]
}

/// The bindings of the raw attribute `key`: one per placeholder of its value.
pub open spec fn key_bindings(raw: Map<Seq<char>, String>, key: Seq<char>) -> Seq<(Seq<char>, Seq<char>)> {
    if raw.contains_key(key) {
        placeholder_names(raw[key]@).map_values(|n: Seq<char>| (n, raw[key]@))
    } else {
        Seq::empty()
    }
}

/// The bindings of an element, attribute by attribute in `bound_keys` order.
pub open spec fn element_bindings(raw: Map<Seq<char>, String>) -> Seq<(Seq<char>, Seq<char>)> {
    key_bindings(raw, "text"@) + key_bindings(raw, "markup"@) + key_bindings(raw, "value"@)
        + key_bindings(raw, "icon"@) + key_bindings(raw, "file"@) + key_bindings(raw, "src"@)
}

pub open spec fn binding_views(b: Seq<VarBinding>) -> Seq<(Seq<char>, Seq<char>)> {
    b.map_values(|x: VarBinding| (x.var@, x.template@))
}

fn push_key_bindings(raw: &StrMap<String>, key: &str, out: &mut Vec<VarBinding>)
    ensures
        binding_views(final(out)@) == binding_views(old(out)@) + key_bindings(raw@, key@),
{
    match raw.get(key) {
        Some(t) => {
            if has_placeholder(t.as_str()) {
                let names = placeholders(t.as_str());
                let mut i: usize = 0;
                let ghost start = binding_views(out@);
                while i < names.len()
                    invariant
                        i <= names@.len(),
                        views(names@) == placeholder_names(t@),
                        binding_views(out@) == start + placeholder_names(t@).take(i as int).map_values(|n: Seq<char>| (n, t@)),
                    decreases names.len() - i,
                {
                    let ghost before = binding_views(out@);
                    out.push(VarBinding { var: names[i].clone(), template: t.clone() });
                    proof {
                        assert(views(names@)[i as int] == names@[i as int]@);
                        assert(binding_views(out@) =~= before.push((names@[i as int]@, t@)));
                        assert(placeholder_names(t@).take(i as int + 1).map_values(|n: Seq<char>| (n, t@))
                            =~= placeholder_names(t@).take(i as int).map_values(|n: Seq<char>| (n, t@)).push((names@[i as int]@, t@)));
                    }
                    i = i + 1;
                }
                proof {
                    assert(placeholder_names(t@).take(i as int) =~= placeholder_names(t@));
                }
            } else {
                proof {
                    assert(placeholder_names(t@).map_values(|n: Seq<char>| (n, t@)) =~= Seq::<(Seq<char>, Seq<char>)>::empty());
                    assert(binding_views(out@) =~= binding_views(out@) + Seq::<(Seq<char>, Seq<char>)>::empty());
                }
            }
        },
        None => {
            assert(binding_views(out@) =~= binding_views(out@) + Seq::<(Seq<char>, Seq<char>)>::empty());
        },
    }
}

/// The variable bindings of one element, from its raw (uninterpolated) attributes.
pub fn bindings_for(raw: &StrMap<String>) -> (r: Vec<VarBinding>)
    ensures
        binding_views(r@) == element_bindings(raw@),
{
    let mut out: Vec<VarBinding> = Vec::new();
    push_key_bindings(raw, "text", &mut out);
    push_key_bindings(raw, "markup", &mut out);
    push_key_bindings(raw, "value", &mut out);
    push_key_bindings(raw, "icon", &mut out);
    push_key_bindings(raw, "file", &mut out);
    push_key_bindings(raw, "src", &mut out);
    assert(binding_views(out@) =~= element_bindings(raw@));
    out
}

/// Where a refreshed variable gets its value.
#[derive(Debug, Clone)]
pub enum TimerSource {
    /// A built-in data source path
    Builtin(String),
    /// A shell command
    Script(String),
}

/// A periodic refresh of one variable.
#[derive(Debug, Clone)]
pub struct VarTimer {
    pub var: String,
    pub source: TimerSource,
    pub interval_ms: u64,
}

/// Whether some binding is driven by variable `name`.
pub open spec fn is_bound(bindings: Seq<(Seq<char>, Seq<char>)>, name: Seq<char>) -> bool {
    exists|i: int| 0 <= i < bindings.len() && (#[trigger] bindings[i]).0 == name
}

/// The timer (if any) a variable gets: one for a variable with a built-in
/// source or a script (the built-in wins) that some element is bound to.
pub open spec fn timer_for(name: Seq<char>, def: VarDef, bindings: Seq<(Seq<char>, Seq<char>)>, t: Option<VarTimer>) -> bool {
    if (def.builtin is None && def.script is None) || !is_bound(bindings, name) {
        t is None
    } else {
        t matches Some(timer) && timer.var@ == name && timer.interval_ms == def.interval_ms
            && match def.builtin {
                Some(b) => timer.source matches TimerSource::Builtin(x) && x@ == b@,
                None => timer.source matches TimerSource::Script(x) && x@ == def.script.unwrap()@,
            }
    }
}

/// The timers of a definition, in the order of its variables.
pub open spec fn timers_of(entries: Seq<(Seq<char>, VarDef)>, bindings: Seq<(Seq<char>, Seq<char>)>, timers: Seq<VarTimer>) -> bool
    decreases entries.len(),
{
    if entries.len() == 0 {
        timers.len() == 0
    } else {
        let last = entries.last();
        if (last.1.builtin is None && last.1.script is None) || !is_bound(bindings, last.0) {
            timers_of(entries.drop_last(), bindings, timers)
        } else {
            timers.len() > 0 && timer_for(last.0, last.1, bindings, Some(timers.last()))
                && timers_of(entries.drop_last(), bindings, timers.drop_last())
        }
    }
}

fn bound_exec(bindings: &Vec<VarBinding>, name: &str) -> (b: bool)
    ensures
        b == is_bound(binding_views(bindings@), name@),
{
    let mut i: usize = 0;
    while i < bindings.len()
        invariant
            i <= bindings@.len(),
            forall|j: int| 0 <= j < i ==> (#[trigger] bindings@[j]).var@ != name@,
        decreases bindings.len() - i,
    {
        if str_eq(bindings[i].var.as_str(), name) {
            assert(binding_views(bindings@)[i as int].0 == name@);
            return true;
        }
        i = i + 1;
    }
    proof {
        if is_bound(binding_views(bindings@), name@) {
            let j = choose|j: int| 0 <= j < binding_views(bindings@).len() && (#[trigger] binding_views(bindings@)[j]).0 == name@;
            assert(bindings@[j].var@ == name@);
        }
    }
    false
}

/// The refresh timers a widget needs: one per variable that has a built-in
/// source or a script and drives at least one attribute.
pub fn var_timers(definition: &WidgetDefinition, bindings: &Vec<VarBinding>) -> (r: Vec<VarTimer>)
    ensures
        timers_of(var_entries(definition.vars), binding_views(bindings@), r@),
{
    let n = var_map_len(&definition.vars);
    let mut r: Vec<VarTimer> = Vec::new();
    let mut i: usize = 0;
    while i < n
        invariant
            n == var_entries(definition.vars).len(),
            i <= n,
            timers_of(var_entries(definition.vars).take(i as int), binding_views(bindings@), r@),
        decreases n - i,
    {
        let ghost e = var_entries(definition.vars);
        proof {
            assert(e.take(i as int + 1).drop_last() =~= e.take(i as int));
        }
        match var_map_get_index(&definition.vars, i) {
            Some((k, v)) => {
                let has_source = v.builtin.is_some() || v.script.is_some();
                if has_source && bound_exec(bindings, k.as_str()) {
                    let source = match &v.builtin {
                        Some(b) => TimerSource::Builtin(b.clone()),
                        None => {
                            let s = match &v.script {
                                Some(s) => s.clone(),
                                None => String::new(),
                            };
                            TimerSource::Script(s)
                        },
                    };
                    let ghost before = r@;
                    r.push(VarTimer { var: k.clone(), source, interval_ms: v.interval_ms });
                    proof {
                        assert(r@.drop_last() =~= before);
                    }
                }
            },
            None => {},
        }
        i = i + 1;
    }
    proof {
        assert(var_entries(definition.vars).take(n as int) =~= var_entries(definition.vars));
    }
    r
}

/// Record a variable's new value and re-render every template it drives.
pub fn refresh_var(values: &mut StrMap<String>, var: &str, value: String, templates: &Vec<String>) -> (r: Vec<String>)
    ensures
        texts(final(values)@) == texts(old(values)@).insert(var@, value@),
        r@.len() == templates@.len(),
        forall|i: int| 0 <= i < r@.len() ==> (#[trigger] r@[i])@ == interpolated(templates@[i]@, final(values)@),
{
    let ghost v = value@;
    values.insert(var.to_owned(), value);
    proof {
        assert(texts(values@) =~= texts(old(values)@).insert(var@, v));
    }
    let mut r: Vec<String> = Vec::new();
    let mut i: usize = 0;
    while i < templates.len()
        invariant
            i <= templates@.len(),
            r@.len() == i,
            forall|j: int| 0 <= j < i ==> (#[trigger] r@[j])@ == interpolated(templates@[j]@, values@),
        decreases templates.len() - i,
    {
        r.push(interpolate(templates[i].as_str(), values));
        i = i + 1;
    }
    r
}

} // verus!
