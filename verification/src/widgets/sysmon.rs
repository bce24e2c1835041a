//! System monitor widget: its settings, network rates, and the unit a byte
//! count is shown in (the readings themselves are fractional and are
//! formatted by the renderer).
use vstd::prelude::*;
use crate::text::parse_u64;
use crate::widgets::battery::{bool_setting, bool_var, nat_setting};
use crate::widgets::{var_or, WidgetContext};

verus! {

/// Unit of a byte quantity as shown.
#[derive(Debug, Clone, Copy, PartialEq, Eq, Structural)]
pub enum ByteUnit {
    Bytes,
    Kilo,
    Mega,
    Giga,
}

/// The unit of a network rate: bytes under 1 KiB, then KiB, MiB, GiB.
pub fn rate_unit(bytes: u64) -> (u: ByteUnit)
    ensures
        bytes < 1024 ==> u == ByteUnit::Bytes,
        1024 <= bytes < 1024 * 1024 ==> u == ByteUnit::Kilo,
        1024 * 1024 <= bytes < 1024 * 1024 * 1024 ==> u == ByteUnit::Mega,
        bytes >= 1024 * 1024 * 1024 ==> u == ByteUnit::Giga,
{
    if bytes < 1024 {
        ByteUnit::Bytes
    } else if bytes < 1024 * 1024 {
        ByteUnit::Kilo
    } else if bytes < 1024 * 1024 * 1024 {
        ByteUnit::Mega
    } else {
        ByteUnit::Giga
    }
}

/// The unit of a memory amount: MiB under 1 GiB, else GiB.
pub fn memory_unit(bytes: u64) -> (u: ByteUnit)
    ensures
        bytes < 1024 * 1024 * 1024 ==> u == ByteUnit::Mega,
        bytes >= 1024 * 1024 * 1024 ==> u == ByteUnit::Giga,
{
    if bytes < 1024 * 1024 * 1024 {
        ByteUnit::Mega
    } else {
        ByteUnit::Giga
    }
}

/// Bytes per second for `delta` bytes counted over `secs` seconds (the count
/// itself when no time is given).
pub fn rate_per_sec(delta: u64, secs: u64) -> (r: u64)
    ensures
        secs == 0 ==> r == delta,
        secs > 0 ==> r == delta / secs,
{
    if secs == 0 {
        delta
    } else {
        delta / secs
    }
}

/// The system monitor's settings.
#[derive(Debug, Clone)]
pub struct SysmonOptions {
    /// Show the network receive and transmit rows
    pub show_net: bool,
    /// Show the swap usage row
    pub show_swap: bool,
    /// Show the title label
    pub show_title: bool,
    pub title: String,
    pub cpu_label: String,
    pub ram_label: String,
    pub swap_label: String,
    pub net_rx_label: String,
    pub net_tx_label: String,
    /// Seconds between updates
    pub update_secs: u64,
}

impl SysmonOptions {
    /// Settings from the widget's variables: `show_net` true, `show_swap`
    /// false, `show_title` true, `title` System, row labels CPU, RAM, SWP,
    /// NET↓, NET↑, `update_interval` 2 seconds.
    pub fn from_context(ctx: &WidgetContext) -> (o: Self)
        ensures
            o.show_net == bool_setting(ctx.vars@, "show_net"@, true),
            o.show_swap == bool_setting(ctx.vars@, "show_swap"@, false),
            o.show_title == bool_setting(ctx.vars@, "show_title"@, true),
            o.title@ == var_or(ctx.vars@, "title"@, "System"@),
            o.cpu_label@ == var_or(ctx.vars@, "cpu_label"@, "CPU"@),
            o.ram_label@ == var_or(ctx.vars@, "ram_label"@, "RAM"@),
            o.swap_label@ == var_or(ctx.vars@, "swap_label"@, "SWP"@),
            o.net_rx_label@ == var_or(ctx.vars@, "net_rx_label"@, "NET↓"@),
            o.net_tx_label@ == var_or(ctx.vars@, "net_tx_label"@, "NET↑"@),
            o.update_secs as nat == nat_setting(ctx.vars@, "update_interval"@, "2"@, 2, u64::MAX as nat),
    {
        let update_secs = match parse_u64(ctx.var("update_interval", "2").as_str()) {
            Some(n) => n,
            None => 2,
        };
        SysmonOptions {
            show_net: bool_var(ctx, "show_net", true),
            show_swap: bool_var(ctx, "show_swap", false),
            show_title: bool_var(ctx, "show_title", true),
            title: ctx.var("title", "System"),
            cpu_label: ctx.var("cpu_label", "CPU"),
            ram_label: ctx.var("ram_label", "RAM"),
            swap_label: ctx.var("swap_label", "SWP"),
            net_rx_label: ctx.var("net_rx_label", "NET↓"),
            net_tx_label: ctx.var("net_tx_label", "NET↑"),
            update_secs,
        }
    }
}

} // verus!
