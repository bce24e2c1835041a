//! Typed configuration, as read from `config.yaml`.
use vstd::prelude::*;
use indexmap::IndexMap;

verus! {

/// Top-level NovaShell configuration.
#[derive(Debug)]
pub struct NovaConfig {
    /// Global display settings
    pub novashell: GlobalSettings,
    /// Per-screen widget configurations, keyed by screen name
    pub screens: IndexMap<String, ScreenConfig>,
    /// Global widget defaults
    pub defaults: WidgetDefaults,
}

/// The built-in configuration: empty global settings (hot reload off), no
/// screens, and the documented widget defaults.
pub open spec fn is_default_config(c: NovaConfig) -> bool {
    &&& c.novashell.log_level@ == Seq::<char>::empty()
    &&& c.novashell.config_dir@ == Seq::<char>::empty()
    &&& !c.novashell.hot_reload
    &&& crate::ordered::screen_entries(c.screens) == Seq::<(Seq<char>, ScreenConfig)>::empty()
    &&& is_default_widget_defaults(c.defaults)
}

impl Default for NovaConfig {
    fn default() -> (c: Self)
        ensures
            is_default_config(c),
    {
        NovaConfig {
            novashell: GlobalSettings::default(),
            screens: crate::ordered::screen_map_new(),
            defaults: WidgetDefaults::default(),
        }
    }
}

/// Global settings (`novashell:` section).
#[derive(Debug, Clone)]
pub struct GlobalSettings {
    /// Logging level: error, warn, info, debug, trace
    pub log_level: String,
    /// Base config directory (tilde-expanded)
    pub config_dir: String,
    /// Whether to enable hot-reload of config/CSS on file change
    pub hot_reload: bool,
}

impl Default for GlobalSettings {
    /// The all-empty value (the section's per-field defaults apply only when
    /// a section is read from a file).
    fn default() -> (g: Self)
        ensures
            g.log_level@ == Seq::<char>::empty(),
            g.config_dir@ == Seq::<char>::empty(),
            !g.hot_reload,
    {
        GlobalSettings { log_level: String::new(), config_dir: String::new(), hot_reload: false }
    }
}

/// Default `log_level` of a `novashell:` section.
pub fn default_log_level() -> (s: String)
    ensures
        s@ == seq!['i', 'n', 'f', 'o'],
{
    let v: Vec<char> = vec!['i', 'n', 'f', 'o'];
    crate::text::string_from(&v)
}

/// Default `config_dir` of a `novashell:` section.
pub fn default_config_dir() -> (s: String)
    ensures
        s@ == seq!['~', '/', '.', 'c', 'o', 'n', 'f', 'i', 'g', '/', 'n', 'o', 'v', 'a', 's', 'h', 'e', 'l', 'l'],
{
    let v: Vec<char> = vec!['~', '/', '.', 'c', 'o', 'n', 'f', 'i', 'g', '/', 'n', 'o', 'v', 'a', 's', 'h', 'e', 'l', 'l'];
    crate::text::string_from(&v)
}

/// Default of the `hot_reload`, `enabled` and `visible` flags.
pub fn default_true() -> (b: bool)
    ensures
        b,
{
    true
}

/// Configuration for a single screen / monitor.
#[derive(Debug, Clone)]
pub struct ScreenConfig {
    /// Monitor connector name (e.g. "DP-1", "HDMI-A-1", "eDP-1")
    pub monitor: String,
    /// Layer to render on
    pub layer: LayerType,
    /// Exclusive zone: -1 = ignore existing, 0 = no exclusion, >0 = reserve N pixels
    pub exclusive_zone: i32,
    /// Whether this screen config is enabled
    pub enabled: bool,
    /// Widgets to render on this screen
    pub widgets: Vec<WidgetInstance>,
}

/// Default `monitor` of a screen.
pub fn default_monitor() -> (s: String)
    ensures
        s@ == seq!['D', 'P', '-', '1'],
{
    let v: Vec<char> = vec!['D', 'P', '-', '1'];
    crate::text::string_from(&v)
}

impl Default for ScreenConfig {
    fn default() -> (c: Self)
        ensures
            c.monitor@ == seq!['D', 'P', '-', '1'],
            c.layer == LayerType::Top,
            c.exclusive_zone == 0,
            c.enabled,
            c.widgets@.len() == 0,
    {
        ScreenConfig {
            monitor: default_monitor(),
            layer: LayerType::Top,
            exclusive_zone: 0,
            enabled: true,
            widgets: Vec::new(),
        }
    }
}

/// A widget instance placed on a screen.
#[derive(Debug, Clone)]
pub struct WidgetInstance {
    /// Widget name (builtin) or path to .widget file
    pub widget: String,
    /// Unique ID for this instance (used by IPC commands)
    pub id: Option<String>,
    /// Position and sizing configuration
    pub position: PositionConfig,
    /// Per-instance variable overrides, as name/value pairs
    pub vars: Option<Vec<(String, String)>>,
    /// Inline CSS to apply on top of widget defaults (scoped to display)
    pub style_override: Option<String>,
    /// Widget opacity 0.0 (transparent) – 1.0 (opaque), held as the IEEE-754
    /// bit pattern of the `f64` value (`f64::to_bits`).
    pub opacity: Option<u64>,
    /// Whether this widget starts visible
    pub visible: bool,
    /// Shell command to run when the widget is left-clicked
    pub on_click: Option<String>,
    /// Shell command to run on right-click
    pub on_right_click: Option<String>,
    /// Shell command to run on middle-click
    pub on_middle_click: Option<String>,
    /// Tooltip text shown on hover
    pub tooltip: Option<String>,
}

impl Default for WidgetInstance {
    fn default() -> (w: Self)
        ensures
            w.widget@ == Seq::<char>::empty(),
            w.id is None,
            w.position.is_default(),
            w.vars is None,
            w.style_override is None,
            w.opacity is None,
            w.visible,
            w.on_click is None,
            w.on_right_click is None,
            w.on_middle_click is None,
            w.tooltip is None,
    {
        WidgetInstance {
            widget: String::new(),
            id: None,
            position: PositionConfig::default(),
            vars: None,
            style_override: None,
            opacity: None,
            visible: true,
            on_click: None,
            on_right_click: None,
            on_middle_click: None,
            tooltip: None,
        }
    }
}

/// Position and sizing for a widget window.
#[derive(Debug, Clone, Copy)]
pub struct PositionConfig {
    /// Anchor point on screen
    pub anchor: AnchorPoint,
    /// X offset from the anchor point in pixels
    pub x: i32,
    /// Y offset from the anchor point in pixels
    pub y: i32,
    /// Margins: [top, right, bottom, left] in pixels
    pub margin: [i32; 4],
    /// Fixed width in pixels (None = auto-size)
    pub width: Option<i32>,
    /// Fixed height in pixels (None = auto-size)
    pub height: Option<i32>,
}

impl PositionConfig {
    /// The position every widget gets when its configuration names none:
    /// top-left, no offset, no margins, auto-sized.
    pub open spec fn is_default(self) -> bool {
        &&& self.anchor == AnchorPoint::TopLeft
        &&& self.x == 0
        &&& self.y == 0
        &&& self.margin@ == seq![0i32, 0i32, 0i32, 0i32]
        &&& self.width is None
        &&& self.height is None
    }
}

impl Default for PositionConfig {
    fn default() -> (p: Self)
        ensures
            p.is_default(),
    {
        PositionConfig {
            anchor: AnchorPoint::TopLeft,
            x: 0,
            y: 0,
            margin: [0, 0, 0, 0],
            width: None,
            height: None,
        }
    }
}

/// Screen anchor point for positioning widgets.
#[derive(Debug, Clone, Copy, PartialEq, Eq, Structural)]
pub enum AnchorPoint {
    TopLeft,
    Top,
    TopRight,
    Left,
    Center,
    Right,
    BottomLeft,
    Bottom,
    BottomRight,
}

impl Default for AnchorPoint {
    fn default() -> (a: Self)
        ensures
            a == AnchorPoint::TopLeft,
    {
        AnchorPoint::TopLeft
    }
}

impl AnchorPoint {
    /// The anchor touches the top edge.
    pub open spec fn spec_has_top(self) -> bool {
        self == AnchorPoint::TopLeft || self == AnchorPoint::Top || self == AnchorPoint::TopRight
    }

    /// The anchor touches the bottom edge.
    pub open spec fn spec_has_bottom(self) -> bool {
        self == AnchorPoint::BottomLeft || self == AnchorPoint::Bottom || self
            == AnchorPoint::BottomRight
    }

    /// The anchor touches the left edge.
    pub open spec fn spec_has_left(self) -> bool {
        self == AnchorPoint::TopLeft || self == AnchorPoint::Left || self == AnchorPoint::BottomLeft
    }

    /// The anchor touches the right edge.
    pub open spec fn spec_has_right(self) -> bool {
        self == AnchorPoint::TopRight || self == AnchorPoint::Right || self
            == AnchorPoint::BottomRight
    }

    /// Returns whether this anchor includes the top edge
    pub fn has_top(&self) -> (b: bool)
        ensures
            b == self.spec_has_top(),
    {
        match self {
            AnchorPoint::TopLeft | AnchorPoint::Top | AnchorPoint::TopRight => true,
            _ => false,
        }
    }

    /// Returns whether this anchor includes the bottom edge
    pub fn has_bottom(&self) -> (b: bool)
        ensures
            b == self.spec_has_bottom(),
    {
        match self {
            AnchorPoint::BottomLeft | AnchorPoint::Bottom | AnchorPoint::BottomRight => true,
            _ => false,
        }
    }

    /// Returns whether this anchor includes the left edge
    pub fn has_left(&self) -> (b: bool)
        ensures
            b == self.spec_has_left(),
    {
        match self {
            AnchorPoint::TopLeft | AnchorPoint::Left | AnchorPoint::BottomLeft => true,
            _ => false,
        }
    }

    /// Returns whether this anchor includes the right edge
    pub fn has_right(&self) -> (b: bool)
        ensures
            b == self.spec_has_right(),
    {
        match self {
            AnchorPoint::TopRight | AnchorPoint::Right | AnchorPoint::BottomRight => true,
            _ => false,
        }
    }
}

/// An anchor never touches two opposite edges, and it touches a vertical edge
/// exactly when it is not in the middle column (likewise for rows).
pub proof fn law_anchor_edges(a: AnchorPoint)
    ensures
        !(a.spec_has_top() && a.spec_has_bottom()),
        !(a.spec_has_left() && a.spec_has_right()),
        (a.spec_has_left() || a.spec_has_right()) <==> !(a == AnchorPoint::Top || a
            == AnchorPoint::Center || a == AnchorPoint::Bottom),
        (a.spec_has_top() || a.spec_has_bottom()) <==> !(a == AnchorPoint::Left || a
            == AnchorPoint::Center || a == AnchorPoint::Right),
{
}

/// Wayland layer to render on.
#[derive(Debug, Clone, Copy, PartialEq, Eq, Structural)]
pub enum LayerType {
    /// Behind all windows, at wallpaper level
    Background,
    /// Below normal windows
    Bottom,
    /// Above normal windows (default)
    Top,
    /// Above everything including full-screen windows
    Overlay,
}

impl Default for LayerType {
    fn default() -> (l: Self)
        ensures
            l == LayerType::Top,
    {
        LayerType::Top
    }
}

/// Global defaults applied to all widgets.
#[derive(Debug, Clone)]
pub struct WidgetDefaults {
    /// CSS class prefix for widget elements (default: "nova")
    pub class_prefix: String,
    /// Default font family
    pub font: String,
    /// Default font size in points
    pub font_size: u32,
    /// Background color (CSS color string)
    pub background: Option<String>,
    /// Text color (CSS color string)
    pub foreground: Option<String>,
    /// Corner radius in pixels
    pub border_radius: u32,
    /// Padding in pixels
    pub padding: u32,
}

/// The widget defaults each field falls back to: class prefix "nova", font
/// "Sans" at 12 points, no colours, square corners, 8 pixels of padding.
pub open spec fn is_default_widget_defaults(d: WidgetDefaults) -> bool {
    &&& d.class_prefix@ == seq!['n', 'o', 'v', 'a']
    &&& d.font@ == seq!['S', 'a', 'n', 's']
    &&& d.font_size == 12
    &&& d.background is None
    &&& d.foreground is None
    &&& d.border_radius == 0
    &&& d.padding == 8
}

impl Default for WidgetDefaults {
    /// Every field at its documented default.
    fn default() -> (d: Self)
        ensures
            is_default_widget_defaults(d),
    {
        WidgetDefaults {
            class_prefix: default_class_prefix(),
            font: default_font(),
            font_size: default_font_size(),
            background: None,
            foreground: None,
            border_radius: 0,
            padding: default_padding(),
        }
    }
}

/// Default `class_prefix` of a `defaults:` section.
pub fn default_class_prefix() -> (s: String)
    ensures
        s@ == seq!['n', 'o', 'v', 'a'],
{
    let v: Vec<char> = vec!['n', 'o', 'v', 'a'];
    crate::text::string_from(&v)
}

/// Default `font` of a `defaults:` section.
pub fn default_font() -> (s: String)
    ensures
        s@ == seq!['S', 'a', 'n', 's'],
{
    let v: Vec<char> = vec!['S', 'a', 'n', 's'];
    crate::text::string_from(&v)
}

/// Default `font_size` of a `defaults:` section.
pub fn default_font_size() -> (n: u32)
    ensures
        n == 12,
{
    12
}

/// Default `padding` of a `defaults:` section.
pub fn default_padding() -> (n: u32)
    ensures
        n == 8,
{
    8
}

} // verus!
