//! Exec widget: runs a shell command and shows its output through a format.
use vstd::prelude::*;
use crate::text::{parse_u64, parse_unsigned, replace, str_eq, str_replace, trim, trim_str};
use crate::widgets::battery::nat_setting;
use crate::widgets::{var_or, WidgetContext};

verus! {

/// Horizontal placement of the output text.
#[derive(Debug, Clone, Copy, PartialEq, Eq, Structural)]
pub enum TextAlign {
    Left,
    Center,
    Right,
}

/// The exec widget's settings.
#[derive(Debug, Clone)]
pub struct ExecOptions {
    /// Shell command to run
    pub command: String,
    /// Seconds between refreshes
    pub interval_secs: u64,
    /// Output template; `{output}` stands for the command's output
    pub format: String,
    /// Whether the output is Pango markup
    pub markup: bool,
    /// Command run on left-click
    pub on_click: Option<String>,
    /// Command run on right-click
    pub on_right_click: Option<String>,
    pub align: TextAlign,
}

pub open spec fn align_named(s: Seq<char>) -> TextAlign {
    if s == "center"@ {
        TextAlign::Center
    } else if s == "right"@ {
        TextAlign::Right
    } else {
        TextAlign::Left
    }
}

pub open spec fn var_text(vars: Map<Seq<char>, String>, name: Seq<char>) -> Option<Seq<char>> {
    if vars.contains_key(name) {
        Some(vars[name]@)
    } else {
        None
    }
}

impl ExecOptions {
    /// Settings from the widget's variables: `command`, `interval` (5 s),
    /// `format` (`{output}`), `markup` (only `true` enables it), `on_click`,
    /// `on_right_click`, `align` (left).
    pub fn from_context(ctx: &WidgetContext) -> (o: Self)
        ensures
            o.command@ == var_or(ctx.vars@, "command"@, "echo 'set command var'"@),
            o.interval_secs as nat == nat_setting(ctx.vars@, "interval"@, "5"@, 5, u64::MAX as nat),
            o.format@ == var_or(ctx.vars@, "format"@, "{output}"@),
            o.markup == (var_or(ctx.vars@, "markup"@, "false"@) == "true"@),
            crate::factory::opt_text(o.on_click) == var_text(ctx.vars@, "on_click"@),
            crate::factory::opt_text(o.on_right_click) == var_text(ctx.vars@, "on_right_click"@),
            o.align == align_named(var_or(ctx.vars@, "align"@, "left"@)),
    {
        let interval_secs = match parse_u64(ctx.var("interval", "5").as_str()) {
            Some(n) => n,
            None => 5,
        };
        let on_click = match ctx.vars.get("on_click") {
            Some(c) => Some(c.clone()),
            None => None,
        };
        let on_right_click = match ctx.vars.get("on_right_click") {
            Some(c) => Some(c.clone()),
            None => None,
        };
        let align_str = ctx.var("align", "left");
        let align = if str_eq(align_str.as_str(), "center") {
            TextAlign::Center
        } else if str_eq(align_str.as_str(), "right") {
            TextAlign::Right
        } else {
            TextAlign::Left
        };
        ExecOptions {
            command: ctx.var("command", "echo 'set command var'"),
            interval_secs,
            format: ctx.var("format", "{output}"),
            markup: str_eq(ctx.var("markup", "false").as_str(), "true"),
            on_click,
            on_right_click,
            align,
        }
    }

    /// Whether a click handler is needed (a left- or right-click command is set).
    pub fn wants_clicks(&self) -> (b: bool)
        ensures
            b == (self.on_click is Some || self.on_right_click is Some),
    {
        self.on_click.is_some() || self.on_right_click.is_some()
    }

    /// The command a mouse button runs: 1 left, 3 right; other buttons none.
    pub fn click_command(&self, button: u32) -> (r: Option<&String>)
        ensures
            match r {
                Some(c) => (button == 1 && self.on_click == Some(*c)) || (button == 3 && self.on_right_click == Some(*c)),
                None => (button == 1 ==> self.on_click is None) && (button == 3 ==> self.on_right_click is None),
            },
    {
        let c = if button == 1 {
            &self.on_click
        } else if button == 3 {
            &self.on_right_click
        } else {
            return None;
        };
        match c {
            Some(s) => Some(s),
            None => None,
        }
    }
}

/// The text shown for a run: the format with `{output}` replaced by the
/// command's trimmed output, or by `error` when the command could not run.
pub open spec fn exec_text(format: Seq<char>, output: Option<Seq<char>>) -> Seq<char> {
    match output {
        Some(o) => replace(format, "{output}"@, trim(o)),
        None => replace(format, "{output}"@, "error"@),
    }
}

pub fn render_output(format: &str, output: Option<&str>) -> (r: String)
    ensures
        r@ == exec_text(format@, crate::ipc::opt_view(output)),
{
    proof {
        reveal_strlit("{output}");
    }
    match output {
        Some(o) => {
            let t = trim_str(o);
            str_replace(format, "{output}", t.as_str())
        },
        None => str_replace(format, "{output}", "error"),
    }
}

} // verus!
