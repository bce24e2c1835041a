//! Volume widget: its settings, reading the mixer tools' reports and choosing
//! the icon. (Volume levels are fractional; reading them as numbers, and the
//! slider's maximum, are the caller's.)
use vstd::prelude::*;
use crate::text::{
    char_pos, char_pos_from, contains, lines, parse_u64, split_whitespace, split_ws, split_lines, str_contains, string_of,
    to_chars, trim, trim_str, views,
};
use crate::widgets::battery::{bool_setting, bool_var, nat_setting};
use crate::widgets::{var_or, WidgetContext};

verus! {

/// The icon for a volume level, in whole percent.
pub open spec fn volume_icon_of(muted: bool, percent: u32) -> Seq<char> {
    if muted || percent == 0 {
        "audio-volume-muted"@
    } else if percent <= 33 {
        "audio-volume-low"@
    } else if percent <= 66 {
        "audio-volume-medium"@
    } else {
        "audio-volume-high"@
    }
}

pub fn volume_icon(muted: bool, percent: u32) -> (r: &'static str)
    ensures
        r@ == volume_icon_of(muted, percent),
{
    if muted || percent == 0 {
        "audio-volume-muted"
    } else if percent <= 33 {
        "audio-volume-low"
    } else if percent <= 66 {
        "audio-volume-medium"
    } else {
        "audio-volume-high"
    }
}

/// What `wpctl get-volume` says (`Volume: 0.75 [MUTED]`): the volume field
/// (second word), if any, and whether it is muted.
pub fn wpctl_fields(stdout: &str) -> (r: (Option<String>, bool))
    ensures
        r.1 == contains(trim(stdout@), "[MUTED]"@),
        match r.0 {
            Some(f) => split_ws(trim(stdout@)).len() > 1 && f@ == split_ws(trim(stdout@))[1],
            None => split_ws(trim(stdout@)).len() <= 1,
        },
{
    let line = trim_str(stdout);
    let muted = str_contains(line.as_str(), "[MUTED]");
    let words = split_whitespace(line.as_str());
    if words.len() > 1 {
        assert(views(words@)[1] == words@[1]@);
        (Some(words[1].clone()), muted)
    } else {
        (None, muted)
    }
}

/// Whether a button action of the volume widget toggles mute.
pub fn is_mute_toggle(action: &str) -> (b: bool)
    ensures
        b == (action@ == "volume::mute_toggle"@),
{
    crate::text::str_eq(action, "volume::mute_toggle")
}

/// What one line of `amixer get` reports, if it holds a `%`: the text
/// between its first `[` and its first `%` (when the `%` comes later), and
/// whether it says `[off]`.
pub open spec fn amixer_line(line: Seq<char>) -> Option<(Seq<char>, bool)> {
    let open = char_pos(line, '[');
    let pct = char_pos(line, '%');
    if pct < line.len() && open < line.len() && pct > open {
        Some((line.subrange(open as int + 1, pct as int), contains(line, "[off]"@)))
    } else {
        None
    }
}

/// The readings of the lines, in order (lines without one skipped).
pub open spec fn amixer_readings(ls: Seq<Seq<char>>) -> Seq<(Seq<char>, bool)>
    decreases ls.len(),
{
    if ls.len() == 0 {
        Seq::empty()
    } else {
        match amixer_line(ls.last()) {
            Some(r) => amixer_readings(ls.drop_last()).push(r),
            None => amixer_readings(ls.drop_last()),
        }
    }
}

pub open spec fn reading_views(r: Seq<(String, bool)>) -> Seq<(Seq<char>, bool)> {
    r.map_values(|x: (String, bool)| (x.0@, x.1))
}

/// The percentage readings of an `amixer get` report, line by line (the
/// first whose text is a number is the volume).
pub fn amixer_fields(stdout: &str) -> (r: Vec<(String, bool)>)
    ensures
        reading_views(r@) == amixer_readings(lines(stdout@)),
{
    let ls = split_lines(stdout);
    let mut r: Vec<(String, bool)> = Vec::new();
    let mut i: usize = 0;
    proof {
        reveal_strlit("[off]");
    }
    while i < ls.len()
        invariant
            i <= ls@.len(),
            views(ls@) == lines(stdout@),
            reading_views(r@) == amixer_readings(views(ls@).take(i as int)),
        decreases ls.len() - i,
    {
        let ghost before = reading_views(r@);
        let line = ls[i].as_str();
        let v = to_chars(line);
        let open = char_pos_from(&v, '[', 0);
        let pct = char_pos_from(&v, '%', 0);
        proof {
            assert(v@.skip(0) =~= v@);
            assert(views(ls@).take(i as int + 1).drop_last() =~= views(ls@).take(i as int));
            assert(views(ls@).take(i as int + 1).last() == line@);
        }
        if pct < v.len() && open < v.len() && pct > open {
            let off = str_contains(line, "[off]");
            r.push((string_of(&v, open + 1, pct), off));
            assert(reading_views(r@) =~= before.push((v@.subrange(open + 1, pct as int), off)));
        }
        i = i + 1;
    }
    assert(views(ls@).take(i as int) =~= views(ls@));
    r
}

/// The glyph shown in text-icon mode: the mute glyph when muted or at zero,
/// else a speaker glyph for low (up to 33%), medium (up to 66%) or high.
pub open spec fn volume_glyph_of(muted: bool, percent: u32, mute_icon: Seq<char>) -> Seq<char> {
    if muted || percent == 0 {
        mute_icon
    } else if percent <= 33 {
        "\u{f057f}"@
    } else if percent <= 66 {
        "\u{f0580}"@
    } else {
        "\u{f057e}"@
    }
}

pub fn volume_glyph(muted: bool, percent: u32, mute_icon: &str) -> (r: String)
    ensures
        r@ == volume_glyph_of(muted, percent, mute_icon@),
{
    if muted || percent == 0 {
        mute_icon.to_owned()
    } else if percent <= 33 {
        "\u{f057f}".to_owned()
    } else if percent <= 66 {
        "\u{f0580}".to_owned()
    } else {
        "\u{f057e}".to_owned()
    }
}

/// The volume widget's settings.
#[derive(Debug, Clone)]
pub struct VolumeOptions {
    pub show_icon: bool,
    pub show_label: bool,
    pub show_slider: bool,
    /// Show a Nerd Font glyph in place of the GTK icon
    pub text_icon: bool,
    /// The glyph shown when muted, in text-icon mode
    pub mute_icon: String,
    /// Milliseconds between polls
    pub update_ms: u64,
}

impl VolumeOptions {
    /// Settings from the widget's variables: `show_icon`, `show_label`,
    /// `show_slider` true, `text_icon` false, `mute_icon` 󰝟,
    /// `update_interval` 1000 ms.
    pub fn from_context(ctx: &WidgetContext) -> (o: Self)
        ensures
            o.show_icon == bool_setting(ctx.vars@, "show_icon"@, true),
            o.show_label == bool_setting(ctx.vars@, "show_label"@, true),
            o.show_slider == bool_setting(ctx.vars@, "show_slider"@, true),
            o.text_icon == bool_setting(ctx.vars@, "text_icon"@, false),
            o.mute_icon@ == var_or(ctx.vars@, "mute_icon"@, "\u{f075f}"@),
            o.update_ms as nat == nat_setting(ctx.vars@, "update_interval"@, "1000"@, 1000, u64::MAX as nat),
    {
        let update_ms = match parse_u64(ctx.var("update_interval", "1000").as_str()) {
            Some(n) => n,
            None => 1000,
        };
        VolumeOptions {
            show_icon: bool_var(ctx, "show_icon", true),
            show_label: bool_var(ctx, "show_label", true),
            show_slider: bool_var(ctx, "show_slider", true),
            text_icon: bool_var(ctx, "text_icon", false),
            mute_icon: ctx.var("mute_icon", "\u{f075f}"),
            update_ms,
        }
    }
}

} // verus!
