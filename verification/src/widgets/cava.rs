//! Cava widget: its settings, the colour of its bars, and their mirrored layout.
use vstd::prelude::*;
use crate::text::{parse_i32, parse_signed, parse_unsigned, parse_usize, str_eq, to_chars, trim_start_matches};
use crate::widgets::battery::{bool_setting, bool_var};
use crate::widgets::{var_or, WidgetContext};

verus! {

/// Bytes `c` takes in UTF-8.
pub open spec fn utf8_width(c: char) -> nat {
    if (c as u32) < 0x80 {
        1
    } else if (c as u32) < 0x800 {
        2
    } else if (c as u32) < 0x10000 {
        3
    } else {
        4
    }
}

/// Bytes `s` takes in UTF-8.
pub open spec fn utf8_len(s: Seq<char>) -> nat
    decreases s.len(),
{
    if s.len() == 0 {
        0
    } else {
        utf8_len(s.drop_last()) + utf8_width(s.last())
    }
}

/// Whether byte offset `b` of `s` falls between two characters.
pub open spec fn is_boundary(s: Seq<char>, b: nat) -> bool {
    exists|k: int| 0 <= k <= s.len() && #[trigger] utf8_len(s.take(k)) == b
}

pub open spec fn is_hex(c: char) -> bool {
    ('0' <= c && c <= '9') || ('a' <= c && c <= 'f') || ('A' <= c && c <= 'F')
}

pub open spec fn hex_value(c: char) -> nat {
    if '0' <= c && c <= '9' {
        (c as u32 - '0' as u32) as nat
    } else if 'a' <= c && c <= 'f' {
        (c as u32 - 'a' as u32 + 10) as nat
    } else {
        (c as u32 - 'A' as u32 + 10) as nat
    }
}

/// `u8::from_str_radix(s, 16)` for a two-character `s`: an optional `+` and
/// one hex digit, or two hex digits.
pub open spec fn hex_byte(a: char, b: char) -> Option<nat> {
    if a == '+' {
        if is_hex(b) {
            Some(hex_value(b))
        } else {
            None
        }
    } else if is_hex(a) && is_hex(b) {
        Some(hex_value(a) * 16 + hex_value(b))
    } else {
        None
    }
}

/// The digits of a colour: the text after its leading `#`s.
pub open spec fn color_digits(color: Seq<char>) -> Seq<char> {
    trim_start_matches(color, "#"@)
}

/// Slicing the digits at bytes 2 and 4 does not split a character.
pub open spec fn color_slices_ok(color: Seq<char>) -> bool {
    let h = color_digits(color);
    utf8_len(h) == 6 ==> is_boundary(h, 2) && is_boundary(h, 4)
}

/// The colour `#rrggbb` names: six bytes of digits making three hex bytes
/// (six ASCII characters; with a wider character some byte pair is not a
/// hex byte); otherwise none (the widget's fallback colour applies).
pub open spec fn color_of(color: Seq<char>) -> Option<(nat, nat, nat)> {
    let h = color_digits(color);
    if utf8_len(h) == 6 && h.len() == 6 {
        match (hex_byte(h[0], h[1]), hex_byte(h[2], h[3]), hex_byte(h[4], h[5])) {
            (Some(r), Some(g), Some(b)) => Some((r, g, b)),
            _ => None,
        }
    } else {
        None
    }
}

proof fn lemma_utf8_len_ge(s: Seq<char>)
    ensures
        utf8_len(s) >= s.len(),
        utf8_len(s) == s.len() ==> forall|i: int| 0 <= i < s.len() ==> utf8_width(#[trigger] s[i]) == 1,
    decreases s.len(),
{
    if s.len() > 0 {
        lemma_utf8_len_ge(s.drop_last());
        assert forall|i: int| 0 <= i < s.len() && utf8_len(s) == s.len() implies utf8_width(#[trigger] s[i]) == 1 by {
            if i < s.len() - 1 {
                assert(s.drop_last()[i] == s[i]);
            }
        }
    }
}

fn width(c: char) -> (w: u64)
    ensures
        w as nat == utf8_width(c),
{
    let n = c as u32;
    if n < 0x80 {
        1
    } else if n < 0x800 {
        2
    } else if n < 0x10000 {
        3
    } else {
        4
    }
}

fn hex_digit(c: char) -> (r: Option<u8>)
    ensures
        match r {
            Some(d) => is_hex(c) && d as nat == hex_value(c),
            None => !is_hex(c),
        },
{
    if '0' <= c && c <= '9' {
        Some(((c as u32) - ('0' as u32)) as u8)
    } else if 'a' <= c && c <= 'f' {
        Some(((c as u32) - ('a' as u32) + 10) as u8)
    } else if 'A' <= c && c <= 'F' {
        Some(((c as u32) - ('A' as u32) + 10) as u8)
    } else {
        None
    }
}

fn hex_pair(a: char, b: char) -> (r: Option<u8>)
    ensures
        match r {
            Some(v) => hex_byte(a, b) == Some(v as nat),
            None => hex_byte(a, b) is None,
        },
{
    if a == '+' {
        return hex_digit(b);
    }
    match (hex_digit(a), hex_digit(b)) {
        (Some(x), Some(y)) => Some(x * 16 + y),
        _ => None,
    }
}

/// The RGB bytes of a `#rrggbb` colour, or `None` for any other text.
pub fn parse_color(color: &str) -> (r: Option<(u8, u8, u8)>)
    requires
        color_slices_ok(color@),
    ensures
        match r {
            Some((x, y, z)) => color_of(color@) == Some((x as nat, y as nat, z as nat)),
            None => color_of(color@) is None,
        },
{
    let v = to_chars(color);
    let hash = to_chars("#");
    proof {
        reveal_strlit("#");
    }
    let start = crate::text::trim_start_matches_pos(&v, &hash);
    let ghost h = v@.skip(start as int);
    // Byte length of the digits, capped at 7.
    let mut acc: u64 = 0;
    let mut k: usize = start;
    while k < v.len()
        invariant
            start <= k <= v.len(),
            h == v@.skip(start as int),
            acc == (if utf8_len(h.take(k - start)) > 6 { 7 } else { utf8_len(h.take(k - start)) }),
        decreases v.len() - k,
    {
        proof {
            assert(h.take(k - start + 1).drop_last() =~= h.take(k - start));
            assert(h.take(k - start + 1).last() == v@[k as int]);
        }
        let w = width(v[k]);
        if acc + w > 6 {
            acc = 7;
        } else {
            acc = acc + w;
        }
        k = k + 1;
    }
    proof {
        assert(h.take(k - start) =~= h);
        lemma_utf8_len_ge(h);
    }
    if acc != 6 || v.len() - start != 6 {
        return None;
    }
    match (hex_pair(v[start], v[start + 1]), hex_pair(v[start + 2], v[start + 3]), hex_pair(v[start + 4], v[start + 5])) {
        (Some(x), Some(y), Some(z)) => Some((x, y, z)),
        _ => None,
    }
}

/// Whether a colour can be handed to `parse_color`: when its digits take six
/// bytes, bytes 2 and 4 fall between characters.
pub fn color_slices_fit(color: &str) -> (b: bool)
    ensures
        b == color_slices_ok(color@),
{
    let v = to_chars(color);
    let hash = to_chars("#");
    proof {
        reveal_strlit("#");
    }
    let start = crate::text::trim_start_matches_pos(&v, &hash);
    let ghost h = v@.skip(start as int);
    let mut acc: u64 = 0;
    let mut at2 = false;
    let mut at4 = false;
    let mut k: usize = start;
    proof {
        assert(h.take(0) =~= Seq::<char>::empty());
    }
    while k < v.len()
        invariant
            start <= k <= v.len(),
            h == v@.skip(start as int),
            acc == (if utf8_len(h.take(k - start)) > 6 { 7 } else { utf8_len(h.take(k - start)) }),
            at2 == exists|j: int| 0 <= j <= k - start && #[trigger] utf8_len(h.take(j)) == 2,
            at4 == exists|j: int| 0 <= j <= k - start && #[trigger] utf8_len(h.take(j)) == 4,
        decreases v.len() - k,
    {
        let ghost i: int = k - start;
        proof {
            assert(h.take(i + 1).drop_last() =~= h.take(i));
            assert(h.take(i + 1).last() == v@[k as int]);
        }
        let w = width(v[k]);
        if acc + w > 6 {
            acc = 7;
        } else {
            acc = acc + w;
        }
        proof {
            assert(acc == 2 <==> utf8_len(h.take(i + 1)) == 2);
            assert(acc == 4 <==> utf8_len(h.take(i + 1)) == 4);
            if at2 {
                let j = choose|j: int| 0 <= j <= i && #[trigger] utf8_len(h.take(j)) == 2;
                assert(0 <= j <= i + 1 && utf8_len(h.take(j)) == 2);
            }
            if at4 {
                let j = choose|j: int| 0 <= j <= i && #[trigger] utf8_len(h.take(j)) == 4;
                assert(0 <= j <= i + 1 && utf8_len(h.take(j)) == 4);
            }
            if acc == 2 {
                assert(utf8_len(h.take(i + 1)) == 2);
            }
            if acc == 4 {
                assert(utf8_len(h.take(i + 1)) == 4);
            }
            assert forall|j: int| 0 <= j <= i + 1 && #[trigger] utf8_len(h.take(j)) == 2 implies (at2 || acc == 2) by {
                if j <= i {
                    assert(at2);
                }
            }
            assert forall|j: int| 0 <= j <= i + 1 && #[trigger] utf8_len(h.take(j)) == 4 implies (at4 || acc == 4) by {
                if j <= i {
                    assert(at4);
                }
            }
        }
        at2 = at2 || acc == 2;
        at4 = at4 || acc == 4;
        k = k + 1;
    }
    proof {
        assert(h.take(k - start) =~= h);
        assert(h.len() == k - start);
    }
    acc != 6 || (at2 && at4)
}

/// The cava widget's settings (the bar gap and the opacity, fractional, are
/// read by the renderer).
#[derive(Debug, Clone)]
pub struct CavaOptions {
    pub bar_count: usize,
    /// Bar colour (`color_active` when set, else `color`)
    pub color: String,
    /// Second colour of a top-to-bottom gradient, when set
    pub gradient_end: Option<String>,
    pub width: i32,
    pub height: i32,
    /// The cava output pipe
    pub pipe: String,
    /// Draw the bars mirrored about the centre
    pub mirror: bool,
    /// Round the bars (`bar_style: rounded`) rather than square them
    pub rounded: bool,
}

impl CavaOptions {
    /// Settings from the widget's variables: `bar_count` 20, `color_active`
    /// or `color` (`#89b4fa`), `width` 280, `height` 80, `pipe` `/tmp/cava_input`.
    pub fn from_context(ctx: &WidgetContext) -> (o: Self)
        ensures
            o.bar_count as nat == (match parse_unsigned(var_or(ctx.vars@, "bar_count"@, "20"@), usize::MAX as nat) { Some(n) => n, None => 20 }),
            o.color@ == (if ctx.vars@.contains_key("color_active"@) {
                var_or(ctx.vars@, "color_active"@, "#89b4fa"@)
            } else {
                var_or(ctx.vars@, "color"@, "#89b4fa"@)
            }),
            o.width as int == (match parse_signed(var_or(ctx.vars@, "width"@, "280"@), i32::MIN as int, i32::MAX as int) { Some(n) => n, None => 280 }),
            o.height as int == (match parse_signed(var_or(ctx.vars@, "height"@, "80"@), i32::MIN as int, i32::MAX as int) { Some(n) => n, None => 80 }),
            o.pipe@ == var_or(ctx.vars@, "pipe"@, "/tmp/cava_input"@),
            crate::factory::opt_text(o.gradient_end) == crate::widgets::exec::var_text(ctx.vars@, "gradient_end"@),
            o.mirror == bool_setting(ctx.vars@, "mirror"@, false),
            o.rounded == (var_or(ctx.vars@, "bar_style"@, "sharp"@) == "rounded"@),
    {
        let bar_count = match parse_usize(ctx.var("bar_count", "20").as_str()) {
            Some(n) => n,
            None => 20,
        };
        let color = if ctx.vars.contains_key("color_active") {
            ctx.var("color_active", "#89b4fa")
        } else {
            ctx.var("color", "#89b4fa")
        };
        let width = match parse_i32(ctx.var("width", "280").as_str()) {
            Some(n) => n,
            None => 280,
        };
        let height = match parse_i32(ctx.var("height", "80").as_str()) {
            Some(n) => n,
            None => 80,
        };
        let gradient_end = match ctx.vars.get("gradient_end") {
            Some(c) => Some(c.clone()),
            None => None,
        };
        CavaOptions {
            bar_count,
            color,
            gradient_end,
            width,
            height,
            pipe: ctx.var("pipe", "/tmp/cava_input"),
            mirror: bool_var(ctx, "mirror", false),
            rounded: str_eq(ctx.var("bar_style", "sharp").as_str(), "rounded"),
        }
    }
}

/// The bars as drawn in mirror mode: reflected about the centre, so the
/// lowest band sits in the middle.
pub fn mirror_bars(bars: &Vec<u8>) -> (r: Vec<u8>)
    ensures
        r@ == bars@.reverse() + bars@,
{
    let mut r: Vec<u8> = Vec::new();
    let n = bars.len();
    let mut i: usize = 0;
    while i < n
        invariant
            n == bars@.len(),
            i <= n,
            r@ == bars@.reverse().take(i as int),
        decreases n - i,
    {
        r.push(bars[n - 1 - i]);
        assert(r@ =~= bars@.reverse().take(i as int + 1));
        i = i + 1;
    }
    let mut j: usize = 0;
    while j < n
        invariant
            n == bars@.len(),
            j <= n,
            r@ == bars@.reverse() + bars@.take(j as int),
        decreases n - j,
    {
        r.push(bars[j]);
        assert(r@ =~= bars@.reverse() + bars@.take(j as int + 1));
        j = j + 1;
    }
    assert(bars@.take(n as int) =~= bars@);
    r
}

} // verus!
