//! Widget definitions, registries and the data logic of the built-in widgets.
pub mod battery;
pub mod cava;
pub mod clock;
pub mod exec;
pub mod launcher;
pub mod media;
pub mod sysmon;
pub mod volume;

use vstd::prelude::*;
use indexmap::IndexMap;
use crate::ordered::{
    def_entries, def_map_get, def_map_insert, def_map_new, ordered_get, ordered_insert,
};
use crate::strmap::StrMap;
use crate::text::{str_eq, views};

verus! {

/// Definition of a variable that a widget can expose.
#[derive(Debug, Clone)]
pub struct VarDef {
    /// Shell command to run for this variable's value
    pub script: Option<String>,
    /// Name of a built-in data source (e.g. "clock::time")
    pub builtin: Option<String>,
    /// How often to refresh this variable, in milliseconds
    pub interval_ms: u64,
    /// Value shown before the first refresh
    pub default: String,
}

impl Default for VarDef {
    fn default() -> (d: Self)
        ensures
            d.script is None,
            d.builtin is None,
            d.interval_ms == 0,
            d.default@ == Seq::<char>::empty(),
    {
        VarDef { script: None, builtin: None, interval_ms: 0, default: String::new() }
    }
}

/// Default refresh interval of a variable, in milliseconds.
pub fn default_interval() -> (n: u64)
    ensures
        n == 1000,
{
    1000
}

/// Full definition of a widget type (from a .widget file or a plugin).
#[derive(Debug)]
pub struct WidgetDefinition {
    /// Canonical name used to reference the widget
    pub name: String,
    /// Human-readable description
    pub description: String,
    /// XML template string defining the widget tree
    pub template: String,
    /// Variable definitions indexed by variable name
    pub vars: IndexMap<String, VarDef>,
    /// Inline CSS applied for this widget type
    pub default_style: String,
}

/// Context handed to a widget when it is built or updated.
#[derive(Debug)]
pub struct WidgetContext {
    /// Current variable values, including builtin and user-defined
    pub vars: StrMap<String>,
    /// Widget instance ID
    pub id: String,
    /// Widget definition name
    pub widget_name: String,
    /// Whether the widget is currently visible
    pub visible: bool,
}

/// The value of variable `name` in `vars`, or `fallback` when it has none.
pub open spec fn var_or(vars: Map<Seq<char>, String>, name: Seq<char>, fallback: Seq<char>) -> Seq<char> {
    if vars.contains_key(name) {
        vars[name]@
    } else {
        fallback
    }
}

impl WidgetContext {
    /// A context for instance `id` of widget `widget_name`, with no variables, visible.
    pub fn new(id: &str, widget_name: &str) -> (c: Self)
        ensures
            c.vars@ == Map::<Seq<char>, String>::empty(),
            c.id@ == id@,
            c.widget_name@ == widget_name@,
            c.visible,
    {
        WidgetContext {
            vars: StrMap::new(),
            id: id.to_owned(),
            widget_name: widget_name.to_owned(),
            visible: true,
        }
    }

    /// The value of variable `name`, or `fallback` when it is not set.
    pub fn var(&self, name: &str, fallback: &str) -> (r: String)
        ensures
            r@ == var_or(self.vars@, name@, fallback@),
    {
        match self.vars.get(name) {
            Some(v) => v.clone(),
            None => fallback.to_owned(),
        }
    }

    /// Set variable `name` to `value`.
    pub fn set_var(&mut self, name: &str, value: &str)
        ensures
            final(self).vars@ == old(self).vars@.insert(name@, final(self).vars@[name@]),
            final(self).vars@[name@]@ == value@,
            final(self).id == old(self).id,
            final(self).widget_name == old(self).widget_name,
            final(self).visible == old(self).visible,
    {
        self.vars.insert(name.to_owned(), value.to_owned());
    }
}

/// After `set_var(name, value)`, `var(name, _)` gives `value`.
pub proof fn law_set_var_then_var(
    before: Map<Seq<char>, String>,
    after: Map<Seq<char>, String>,
    name: Seq<char>,
    value: Seq<char>,
    fallback: Seq<char>,
)
    requires
        after == before.insert(name, after[name]),
        after[name]@ == value,
    ensures
        var_or(after, name, fallback) == value,
{
}

/// The built-in widget implementations.
#[derive(Debug, Clone, Copy, PartialEq, Eq, Structural)]
pub enum BuiltinKind {
    Clock,
    Sysmon,
    Cava,
    Media,
    Battery,
    Volume,
    Launcher,
    Exec,
}

/// Name under which each built-in widget is referenced from the config.
pub open spec fn builtin_name(k: BuiltinKind) -> Seq<char> {
    match k {
        BuiltinKind::Clock => "clock"@,
        BuiltinKind::Sysmon => "sysmon"@,
        BuiltinKind::Cava => "cava"@,
        BuiltinKind::Media => "media"@,
        BuiltinKind::Battery => "battery"@,
        BuiltinKind::Volume => "volume"@,
        BuiltinKind::Launcher => "launcher"@,
        BuiltinKind::Exec => "exec"@,
    }
}

/// The built-in widgets, in registration order.
pub open spec fn builtin_kinds() -> Seq<BuiltinKind> {
    seq![
        BuiltinKind::Clock,
        BuiltinKind::Sysmon,
        BuiltinKind::Cava,
        BuiltinKind::Media,
        BuiltinKind::Battery,
        BuiltinKind::Volume,
        BuiltinKind::Launcher,
        BuiltinKind::Exec,
    ]
}

/// The built-in widget named `name`, if any.
pub open spec fn builtin_named(name: Seq<char>) -> Option<BuiltinKind> {
    if name == "clock"@ {
        Some(BuiltinKind::Clock)
    } else if name == "sysmon"@ {
        Some(BuiltinKind::Sysmon)
    } else if name == "cava"@ {
        Some(BuiltinKind::Cava)
    } else if name == "media"@ {
        Some(BuiltinKind::Media)
    } else if name == "battery"@ {
        Some(BuiltinKind::Battery)
    } else if name == "volume"@ {
        Some(BuiltinKind::Volume)
    } else if name == "launcher"@ {
        Some(BuiltinKind::Launcher)
    } else if name == "exec"@ {
        Some(BuiltinKind::Exec)
    } else {
        None
    }
}

impl BuiltinKind {
    /// The widget's name.
    pub fn name(&self) -> (r: &'static str)
        ensures
            r@ == builtin_name(*self),
    {
        match self {
            BuiltinKind::Clock => "clock",
            BuiltinKind::Sysmon => "sysmon",
            BuiltinKind::Cava => "cava",
            BuiltinKind::Media => "media",
            BuiltinKind::Battery => "battery",
            BuiltinKind::Volume => "volume",
            BuiltinKind::Launcher => "launcher",
            BuiltinKind::Exec => "exec",
        }
    }
}

/// Registry of the built-in widgets and of definitions registered beside them.
#[derive(Debug)]
pub struct BuiltinRegistry {
    widgets: Vec<BuiltinKind>,
    definitions: IndexMap<String, WidgetDefinition>,
}

impl BuiltinRegistry {
    /// The registry always holds exactly the built-in widgets, in order.
    #[verifier::type_invariant]
    spec fn holds_builtins(&self) -> bool {
        self.widgets@ == builtin_kinds()
    }

    /// The registered (name, definition) pairs, in order.
    pub closed spec fn definitions(&self) -> Seq<(Seq<char>, WidgetDefinition)> {
        def_entries(self.definitions)
    }

    /// A registry holding all built-in widgets and no definitions.
    pub fn new() -> (r: Self)
        ensures
            r.definitions() == Seq::<(Seq<char>, WidgetDefinition)>::empty(),
    {
        let mut widgets: Vec<BuiltinKind> = Vec::new();
        widgets.push(BuiltinKind::Clock);
        widgets.push(BuiltinKind::Sysmon);
        widgets.push(BuiltinKind::Cava);
        widgets.push(BuiltinKind::Media);
        widgets.push(BuiltinKind::Battery);
        widgets.push(BuiltinKind::Volume);
        widgets.push(BuiltinKind::Launcher);
        widgets.push(BuiltinKind::Exec);
        assert(widgets@ =~= builtin_kinds());
        BuiltinRegistry { widgets, definitions: def_map_new() }
    }

    /// The built-in widget named `name`.
    pub fn get(&self, name: &str) -> (r: Option<BuiltinKind>)
        ensures
            r == builtin_named(name@),
    {
        proof {
            use_type_invariant(self);
        }
        let mut i: usize = 0;
        while i < self.widgets.len()
            invariant
                self.widgets@ == builtin_kinds(),
                i <= self.widgets@.len(),
                forall|j: int| 0 <= j < i ==> builtin_name(#[trigger] builtin_kinds()[j]) != name@,
            decreases self.widgets.len() - i,
        {
            let k = self.widgets[i];
            if str_eq(k.name(), name) {
                proof {
                    reveal_strlit("clock");
                    reveal_strlit("sysmon");
                    reveal_strlit("cava");
                    reveal_strlit("media");
                    reveal_strlit("battery");
                    reveal_strlit("volume");
                    reveal_strlit("launcher");
                    reveal_strlit("exec");
                }
                return Some(k);
            }
            i = i + 1;
        }
        proof {
            reveal_strlit("clock");
            reveal_strlit("sysmon");
            reveal_strlit("cava");
            reveal_strlit("media");
            reveal_strlit("battery");
            reveal_strlit("volume");
            reveal_strlit("launcher");
            reveal_strlit("exec");
            assert(builtin_name(builtin_kinds()[0]) != name@);
            assert(builtin_name(builtin_kinds()[1]) != name@);
            assert(builtin_name(builtin_kinds()[2]) != name@);
            assert(builtin_name(builtin_kinds()[3]) != name@);
            assert(builtin_name(builtin_kinds()[4]) != name@);
            assert(builtin_name(builtin_kinds()[5]) != name@);
            assert(builtin_name(builtin_kinds()[6]) != name@);
            assert(builtin_name(builtin_kinds()[7]) != name@);
        }
        None
    }

    /// The names of all built-in widgets, in registration order.
    pub fn names(&self) -> (r: Vec<String>)
        ensures
            views(r@) == builtin_kinds().map_values(|k: BuiltinKind| builtin_name(k)),
    {
        proof {
            use_type_invariant(self);
        }
        let mut r: Vec<String> = Vec::new();
        let mut i: usize = 0;
        while i < self.widgets.len()
            invariant
                i <= self.widgets@.len(),
                self.widgets@ == builtin_kinds(),
                views(r@) == builtin_kinds().map_values(|k: BuiltinKind| builtin_name(k)).take(i as int),
            decreases self.widgets.len() - i,
        {
            let ghost before = r@;
            r.push(self.widgets[i].name().to_owned());
            assert(views(r@) =~= views(before).push(builtin_name(self.widgets@[i as int])));
            assert(views(r@) =~= builtin_kinds().map_values(|k: BuiltinKind| builtin_name(k)).take(i as int + 1));
            i = i + 1;
        }
        assert(builtin_kinds().map_values(|k: BuiltinKind| builtin_name(k)).take(i as int)
            =~= builtin_kinds().map_values(|k: BuiltinKind| builtin_name(k)));
        r
    }

    /// Register a definition under its name (an existing name keeps its place).
    pub fn register_definition(&mut self, def: WidgetDefinition)
        ensures
            final(self).definitions() == ordered_insert(old(self).definitions(), def.name@, def),
    {
        proof {
            use_type_invariant(&*self);
        }
        let name = def.name.clone();
        let mut m = def_map_new();
        std::mem::swap(&mut m, &mut self.definitions);
        def_map_insert(&mut m, name, def);
        self.definitions = m;
    }

    /// The definition registered under `name`.
    pub fn get_definition(&self, name: &str) -> (r: Option<&WidgetDefinition>)
        ensures
            match r {
                Some(d) => ordered_get(self.definitions(), name@) == Some(*d),
                None => ordered_get(self.definitions(), name@) is None,
            },
    {
        def_map_get(&self.definitions, name)
    }
}

/// The built-in data sources a variable can draw from (`namespace::value`).
#[derive(Debug, Clone, Copy, PartialEq, Eq, Structural)]
pub enum BuiltinSource {
    ClockTime,
    ClockDate,
    ClockDay,
    SysmonCpuPercent,
    SysmonCpuFraction,
    SysmonRamUsed,
    SysmonRamFraction,
    SysmonNetRx,
    SysmonNetTx,
    BatteryPercent,
    BatteryFraction,
    BatteryStatus,
    BatteryIcon,
    VolumeFraction,
    VolumePercent,
    VolumeIcon,
    MediaTitle,
    MediaArtist,
    MediaPlayIcon,
    MediaPositionFraction,
    MediaArtPath,
    /// `cava::bars`, drawn by the cava widget itself (evaluates to "")
    CavaBars,
    /// Any other name (evaluates to "")
    Unknown,
}

/// The data source the path `path` names (`Unknown` for any other path).
pub open spec fn source_named(path: Seq<char>) -> BuiltinSource {
    if path == "clock::time"@ {
        BuiltinSource::ClockTime
    } else if path == "clock::date"@ {
        BuiltinSource::ClockDate
    } else if path == "clock::day"@ {
        BuiltinSource::ClockDay
    } else if path == "sysmon::cpu_percent"@ {
        BuiltinSource::SysmonCpuPercent
    } else if path == "sysmon::cpu_fraction"@ {
        BuiltinSource::SysmonCpuFraction
    } else if path == "sysmon::ram_used"@ {
        BuiltinSource::SysmonRamUsed
    } else if path == "sysmon::ram_fraction"@ {
        BuiltinSource::SysmonRamFraction
    } else if path == "sysmon::net_rx"@ {
        BuiltinSource::SysmonNetRx
    } else if path == "sysmon::net_tx"@ {
        BuiltinSource::SysmonNetTx
    } else if path == "battery::percent"@ {
        BuiltinSource::BatteryPercent
    } else if path == "battery::fraction"@ {
        BuiltinSource::BatteryFraction
    } else if path == "battery::status"@ {
        BuiltinSource::BatteryStatus
    } else if path == "battery::icon"@ {
        BuiltinSource::BatteryIcon
    } else if path == "volume::fraction"@ {
        BuiltinSource::VolumeFraction
    } else if path == "volume::percent"@ {
        BuiltinSource::VolumePercent
    } else if path == "volume::icon"@ {
        BuiltinSource::VolumeIcon
    } else if path == "media::title"@ {
        BuiltinSource::MediaTitle
    } else if path == "media::artist"@ {
        BuiltinSource::MediaArtist
    } else if path == "media::play_icon"@ {
        BuiltinSource::MediaPlayIcon
    } else if path == "media::position_fraction"@ {
        BuiltinSource::MediaPositionFraction
    } else if path == "media::art_path"@ {
        BuiltinSource::MediaArtPath
    } else if path == "cava::bars"@ {
        BuiltinSource::CavaBars
    } else {
        BuiltinSource::Unknown
    }
}

/// Which built-in data source the path `source` names (`Unknown` for any
/// other path; both `Unknown` and `CavaBars` evaluate to the empty string).
pub fn builtin_source(source: &str) -> (r: BuiltinSource)
    ensures
        r == source_named(source@),
{
    if str_eq(source, "clock::time") {
        return BuiltinSource::ClockTime;
    }
    if str_eq(source, "clock::date") {
        return BuiltinSource::ClockDate;
    }
    if str_eq(source, "clock::day") {
        return BuiltinSource::ClockDay;
    }
    if str_eq(source, "sysmon::cpu_percent") {
        return BuiltinSource::SysmonCpuPercent;
    }
    if str_eq(source, "sysmon::cpu_fraction") {
        return BuiltinSource::SysmonCpuFraction;
    }
    if str_eq(source, "sysmon::ram_used") {
        return BuiltinSource::SysmonRamUsed;
    }
    if str_eq(source, "sysmon::ram_fraction") {
        return BuiltinSource::SysmonRamFraction;
    }
    if str_eq(source, "sysmon::net_rx") {
        return BuiltinSource::SysmonNetRx;
    }
    if str_eq(source, "sysmon::net_tx") {
        return BuiltinSource::SysmonNetTx;
    }
    if str_eq(source, "battery::percent") {
        return BuiltinSource::BatteryPercent;
    }
    if str_eq(source, "battery::fraction") {
        return BuiltinSource::BatteryFraction;
    }
    if str_eq(source, "battery::status") {
        return BuiltinSource::BatteryStatus;
    }
    if str_eq(source, "battery::icon") {
        return BuiltinSource::BatteryIcon;
    }
    if str_eq(source, "volume::fraction") {
        return BuiltinSource::VolumeFraction;
    }
    if str_eq(source, "volume::percent") {
        return BuiltinSource::VolumePercent;
    }
    if str_eq(source, "volume::icon") {
        return BuiltinSource::VolumeIcon;
    }
    if str_eq(source, "media::title") {
        return BuiltinSource::MediaTitle;
    }
    if str_eq(source, "media::artist") {
        return BuiltinSource::MediaArtist;
    }
    if str_eq(source, "media::play_icon") {
        return BuiltinSource::MediaPlayIcon;
    }
    if str_eq(source, "media::position_fraction") {
        return BuiltinSource::MediaPositionFraction;
    }
    if str_eq(source, "media::art_path") {
        return BuiltinSource::MediaArtPath;
    }
    if str_eq(source, "cava::bars") {
        return BuiltinSource::CavaBars;
    }
    BuiltinSource::Unknown
}

} // verus!
