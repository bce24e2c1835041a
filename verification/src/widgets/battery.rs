//! Battery widget: which battery is read, what its files say, and how the
//! charge is shown.
use vstd::prelude::*;
use crate::text::{concat, dec, parse_bool, parse_bool_exec, parse_u32, parse_u64, parse_unsigned, str_eq, trim, trim_str};
use crate::widgets::{var_or, WidgetContext};

verus! {

/// The first battery's sysfs directory.
pub const BAT_PATH: &'static str = "/sys/class/power_supply/BAT0";
/// The second battery's sysfs directory, used when the first is absent.
pub const BAT1_PATH: &'static str = "/sys/class/power_supply/BAT1";

/// Which battery directory is read: BAT0 when it exists, else BAT1, else none.
pub fn find_battery_path(bat0_exists: bool, bat1_exists: bool) -> (r: Option<&'static str>)
    ensures
        bat0_exists ==> r == Some(BAT_PATH),
        !bat0_exists && bat1_exists ==> r == Some(BAT1_PATH),
        !bat0_exists && !bat1_exists ==> r is None,
{
    if bat0_exists {
        Some(BAT_PATH)
    } else if bat1_exists {
        Some(BAT1_PATH)
    } else {
        None
    }
}

/// The capacity a `capacity` file gives: its trimmed contents as a number,
/// 100 when it is missing or not a number.
pub open spec fn capacity_of(raw: Option<Seq<char>>) -> nat {
    match raw {
        Some(s) => match parse_unsigned(trim(s), u32::MAX as nat) {
            Some(n) => n,
            None => 100,
        },
        None => 100,
    }
}

/// The status a `status` file gives: its trimmed contents, `Unknown` when missing.
pub open spec fn status_of(raw: Option<Seq<char>>) -> Seq<char> {
    match raw {
        Some(s) => trim(s),
        None => "Unknown"@,
    }
}

/// Capacity and status from the battery's `capacity` and `status` files
/// (`None` for a file that could not be read); with no battery at all,
/// 100 and `Unknown`.
pub fn read_battery(found: bool, capacity: Option<&str>, status: Option<&str>) -> (r: (u32, String))
    ensures
        found ==> r.0 as nat == capacity_of(crate::ipc::opt_view(capacity)) && r.1@ == status_of(crate::ipc::opt_view(status)),
        !found ==> r.0 == 100 && r.1@ == "Unknown"@,
{
    if !found {
        return (100, "Unknown".to_owned());
    }
    let cap = match capacity {
        Some(s) => match parse_u32(trim_str(s).as_str()) {
            Some(n) => n,
            None => 100,
        },
        None => 100,
    };
    let st = match status {
        Some(s) => trim_str(s),
        None => "Unknown".to_owned(),
    };
    (cap, st)
}

/// The icon for a charge level: a bolt while charging or full, else a gauge by level.
pub open spec fn battery_icon_of(cap: u32, status: Seq<char>) -> Seq<char> {
    if status == "Charging"@ || status == "Full"@ {
        "⚡"@
    } else if 90 <= cap && cap <= 100 {
        "󰁹"@
    } else if 70 <= cap && cap <= 89 {
        "󰂁"@
    } else if 50 <= cap && cap <= 69 {
        "󰁾"@
    } else if 20 <= cap && cap <= 49 {
        "󰁼"@
    } else if 10 <= cap && cap <= 19 {
        "󰁻"@
    } else {
        "󰂎"@
    }
}

/// The charge band of `cap`: 0 for 90–100%, 1 for 70–89%, 2 for 50–69%,
/// 3 for 20–49%, 4 for 10–19%, 5 for anything else.
pub open spec fn gauge_band(cap: u32) -> int {
    if 90 <= cap <= 100 {
        0
    } else if 70 <= cap <= 89 {
        1
    } else if 50 <= cap <= 69 {
        2
    } else if 20 <= cap <= 49 {
        3
    } else if 10 <= cap <= 19 {
        4
    } else {
        5
    }
}

/// The battery gauge: charging or full shows the bolt whatever the charge;
/// otherwise the charge picks one of six gauges, fuller bands showing fuller
/// gauges — 90–100% `󰁹`, 70–89% `󰂁`, 50–69% `󰁾`, 20–49% `󰁼`, 10–19% `󰁻`,
/// anything else `󰂎` — and charges in different bands never share a gauge.
pub proof fn law_battery_gauge(cap: u32, other: u32, status: Seq<char>)
    ensures
        status == "Charging"@ || status == "Full"@ ==> battery_icon_of(cap, status) == "⚡"@,
        ({
            let s = status;
            !(s == "Charging"@ || s == "Full"@) ==> {
                &&& 90 <= cap <= 100 ==> battery_icon_of(cap, s) == "󰁹"@
                &&& 70 <= cap <= 89 ==> battery_icon_of(cap, s) == "󰂁"@
                &&& 50 <= cap <= 69 ==> battery_icon_of(cap, s) == "󰁾"@
                &&& 20 <= cap <= 49 ==> battery_icon_of(cap, s) == "󰁼"@
                &&& 10 <= cap <= 19 ==> battery_icon_of(cap, s) == "󰁻"@
                &&& (cap < 10 || cap > 100) ==> battery_icon_of(cap, s) == "󰂎"@
                &&& (battery_icon_of(cap, s) == battery_icon_of(other, s) <==> gauge_band(cap) == gauge_band(other))
                &&& battery_icon_of(cap, s) != "⚡"@
            }
        }),
{
    reveal_strlit("⚡");
    reveal_strlit("󰁹");
    reveal_strlit("󰂁");
    reveal_strlit("󰁾");
    reveal_strlit("󰁼");
    reveal_strlit("󰁻");
    reveal_strlit("󰂎");
    reveal_strlit("Charging");
    reveal_strlit("Full");
    let g = seq!["󰁹"@, "󰂁"@, "󰁾"@, "󰁼"@, "󰁻"@, "󰂎"@, "⚡"@];
    assert forall|i: int, j: int| 0 <= i < j < 7 implies #[trigger] g[i] != #[trigger] g[j] by {
        assert(g[i][0] != g[j][0]);
    }
    assert(g[0] != g[1] && g[0] != g[2] && g[0] != g[3] && g[0] != g[4] && g[0] != g[5] && g[0] != g[6]);
    assert(g[1] != g[2] && g[1] != g[3] && g[1] != g[4] && g[1] != g[5] && g[1] != g[6]);
    assert(g[2] != g[3] && g[2] != g[4] && g[2] != g[5] && g[2] != g[6]);
    assert(g[3] != g[4] && g[3] != g[5] && g[3] != g[6]);
    assert(g[4] != g[5] && g[4] != g[6] && g[5] != g[6]);
}

pub fn battery_icon(cap: u32, status: &str) -> (r: &'static str)
    ensures
        r@ == battery_icon_of(cap, status@),
{
    if str_eq(status, "Charging") || str_eq(status, "Full") {
        return "⚡";
    }
    if 90 <= cap && cap <= 100 {
        "󰁹"
    } else if 70 <= cap && cap <= 89 {
        "󰂁"
    } else if 50 <= cap && cap <= 69 {
        "󰁾"
    } else if 20 <= cap && cap <= 49 {
        "󰁼"
    } else if 10 <= cap && cap <= 19 {
        "󰁻"
    } else {
        "󰂎"
    }
}

/// The alert class for a charge level: critical at or below the critical
/// threshold, else warning at or below the warning threshold.
pub fn alert_class(cap: u32, warn_threshold: u32, crit_threshold: u32) -> (r: Option<&'static str>)
    ensures
        cap <= crit_threshold ==> r == Some("critical"),
        crit_threshold < cap <= warn_threshold ==> r == Some("warning"),
        cap > crit_threshold && cap > warn_threshold ==> r is None,
{
    if cap <= crit_threshold {
        Some("critical")
    } else if cap <= warn_threshold {
        Some("warning")
    } else {
        None
    }
}

/// The percentage text of a capacity: `<cap>%`.
pub fn percent_text(cap: u32) -> (r: String)
    ensures
        r@ == dec(cap as nat) + "%"@,
{
    concat(crate::text::u64_to_string(cap as u64).as_str(), "%")
}

/// The battery widget's settings.
#[derive(Debug, Clone, Copy)]
pub struct BatteryOptions {
    pub show_bar: bool,
    pub show_status: bool,
    pub show_icon: bool,
    pub warn_threshold: u32,
    pub crit_threshold: u32,
    pub update_secs: u64,
}

/// A boolean setting: its value parsed, or `d` when unset or not a boolean.
pub open spec fn bool_setting(vars: Map<Seq<char>, String>, name: Seq<char>, d: bool) -> bool {
    match parse_bool(var_or(vars, name, if d { "true"@ } else { "false"@ })) {
        Some(b) => b,
        None => d,
    }
}

/// A numeric setting: its value parsed, or `d` when unset or not a number.
pub open spec fn nat_setting(vars: Map<Seq<char>, String>, name: Seq<char>, dflt: Seq<char>, d: nat, max: nat) -> nat {
    match parse_unsigned(var_or(vars, name, dflt), max) {
        Some(n) => n,
        None => d,
    }
}

pub(crate) fn bool_var(ctx: &WidgetContext, name: &str, d: bool) -> (b: bool)
    ensures
        b == bool_setting(ctx.vars@, name@, d),
{
    let v = if d { ctx.var(name, "true") } else { ctx.var(name, "false") };
    match parse_bool_exec(v.as_str()) {
        Some(b) => b,
        None => d,
    }
}

impl BatteryOptions {
    /// Settings from the widget's variables (`show_bar`, `show_status`,
    /// `show_icon`: true; `threshold_warning` 20, `threshold_critical` 10,
    /// `update_interval` 30 seconds).
    pub fn from_context(ctx: &WidgetContext) -> (o: Self)
        ensures
            o.show_bar == bool_setting(ctx.vars@, "show_bar"@, true),
            o.show_status == bool_setting(ctx.vars@, "show_status"@, true),
            o.show_icon == bool_setting(ctx.vars@, "show_icon"@, true),
            o.warn_threshold as nat == nat_setting(ctx.vars@, "threshold_warning"@, "20"@, 20, u32::MAX as nat),
            o.crit_threshold as nat == nat_setting(ctx.vars@, "threshold_critical"@, "10"@, 10, u32::MAX as nat),
            o.update_secs as nat == nat_setting(ctx.vars@, "update_interval"@, "30"@, 30, u64::MAX as nat),
    {
        let warn = match parse_u32(ctx.var("threshold_warning", "20").as_str()) {
            Some(n) => n,
            None => 20,
        };
        let crit = match parse_u32(ctx.var("threshold_critical", "10").as_str()) {
            Some(n) => n,
            None => 10,
        };
        let secs = match parse_u64(ctx.var("update_interval", "30").as_str()) {
            Some(n) => n,
            None => 30,
        };
        BatteryOptions {
            show_bar: bool_var(ctx, "show_bar", true),
            show_status: bool_var(ctx, "show_status", true),
            show_icon: bool_var(ctx, "show_icon", true),
            warn_threshold: warn,
            crit_threshold: crit,
            update_secs: secs,
        }
    }
}

} // verus!
