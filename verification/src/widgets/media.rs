//! Media widget: reading `playerctl`'s report, finding the album art, and
//! what the widget shows for a player's state.
use vstd::prelude::*;
use vstd::string::StringSliceAdditionalSpecFns;
use crate::text::{
    concat, dec, lines, parse_u64, parse_unsigned, push_str, split_lines, str_eq, str_starts_with,
    starts_with, strip_prefix, str_strip_prefix, trim, trim_str, u64_to_string, views,
};
use crate::factory::action_shell;
use crate::widgets::battery::bool_setting;
use crate::widgets::{var_or, WidgetContext};

verus! {

/// Playback state of the active player.
#[derive(Debug, Clone, Copy, PartialEq, Eq, Structural)]
pub enum PlaybackStatus {
    Playing,
    Paused,
    Stopped,
}

pub open spec fn status_named(s: Seq<char>) -> PlaybackStatus {
    if trim(s) == "Playing"@ {
        PlaybackStatus::Playing
    } else if trim(s) == "Paused"@ {
        PlaybackStatus::Paused
    } else {
        PlaybackStatus::Stopped
    }
}

impl PlaybackStatus {
    /// The status a `playerctl` status line names (trimmed): `Playing`,
    /// `Paused`, anything else stopped.
    pub fn from_str(s: &str) -> (r: Self)
        ensures
            r == status_named(s@),
    {
        let t = trim_str(s);
        if str_eq(t.as_str(), "Playing") {
            PlaybackStatus::Playing
        } else if str_eq(t.as_str(), "Paused") {
            PlaybackStatus::Paused
        } else {
            PlaybackStatus::Stopped
        }
    }

    /// The CSS class the widget carries for this status.
    pub fn css_class(&self) -> (r: &'static str)
        ensures
            *self == PlaybackStatus::Playing ==> r@ == "nova-media--playing"@,
            *self == PlaybackStatus::Paused ==> r@ == "nova-media--paused"@,
            *self == PlaybackStatus::Stopped ==> r@ == "nova-media--stopped"@,
    {
        match self {
            PlaybackStatus::Playing => "nova-media--playing",
            PlaybackStatus::Paused => "nova-media--paused",
            PlaybackStatus::Stopped => "nova-media--stopped",
        }
    }

    /// The icon of the play/pause button: pause while playing, else play.
    pub fn play_icon(&self) -> (r: &'static str)
        ensures
            *self == PlaybackStatus::Playing ==> r@ == "media-playback-pause-symbolic"@,
            *self != PlaybackStatus::Playing ==> r@ == "media-playback-start-symbolic"@,
    {
        match self {
            PlaybackStatus::Playing => "media-playback-pause-symbolic",
            _ => "media-playback-start-symbolic",
        }
    }
}

/// What the active player reports.
#[derive(Debug, Clone)]
pub struct MediaState {
    pub title: String,
    pub artist: String,
    pub album: String,
    /// Art URL as reported (resolved to a local file separately)
    pub art_path: String,
    pub status: PlaybackStatus,
    /// Position and track length in microseconds
    pub position_us: u64,
    pub length_us: u64,
    pub duration_secs: u64,
    pub position_secs: u64,
    /// e.g. "spotify", "firefox", "mpd"
    pub player_name: String,
    pub shuffle: bool,
}

/// Line `k` of a report, or `d` when the report is shorter.
pub open spec fn line_or(ls: Seq<Seq<char>>, k: int, d: Seq<char>) -> Seq<char> {
    if k < ls.len() {
        ls[k]
    } else {
        d
    }
}

/// A microsecond count: the trimmed line as a number, else 0.
pub open spec fn micros_of(s: Seq<char>) -> nat {
    match parse_unsigned(trim(s), u64::MAX as nat) {
        Some(n) => n,
        None => 0,
    }
}

/// The state a `playerctl metadata` report gives: one field per line (title,
/// artist, album, art URL, status, position, length, player, shuffle).
pub open spec fn report_state(out: Seq<char>, m: MediaState) -> bool {
    let ls = lines(out);
    &&& m.title@ == line_or(ls, 0, ""@)
    &&& m.artist@ == line_or(ls, 1, ""@)
    &&& m.album@ == line_or(ls, 2, ""@)
    &&& m.art_path@ == line_or(ls, 3, ""@)
    &&& m.status == status_named(line_or(ls, 4, "Stopped"@))
    &&& m.position_us as nat == micros_of(line_or(ls, 5, "0"@))
    &&& m.length_us as nat == micros_of(line_or(ls, 6, "0"@))
    &&& m.position_secs == m.position_us / 1_000_000
    &&& m.duration_secs == m.length_us / 1_000_000
    &&& m.player_name@ == line_or(ls, 7, ""@)
    &&& m.shuffle == (trim(line_or(ls, 8, "false"@)) == "true"@ || trim(line_or(ls, 8, "false"@)) == "True"@)
}

fn line(ls: &Vec<String>, k: usize, d: &str) -> (r: String)
    ensures
        r@ == line_or(views(ls@), k as int, d@),
{
    if k < ls.len() {
        ls[k].clone()
    } else {
        d.to_owned()
    }
}

fn micros(s: &str) -> (r: u64)
    ensures
        r as nat == micros_of(s@),
{
    match parse_u64(trim_str(s).as_str()) {
        Some(n) => n,
        None => 0,
    }
}

impl MediaState {
    /// No player: everything empty, stopped.
    pub fn empty() -> (m: Self)
        ensures
            m.title@.len() == 0,
            m.artist@.len() == 0,
            m.album@.len() == 0,
            m.art_path@.len() == 0,
            m.status == PlaybackStatus::Stopped,
            m.position_us == 0 && m.length_us == 0 && m.duration_secs == 0 && m.position_secs == 0,
            m.player_name@.len() == 0,
            !m.shuffle,
    {
        MediaState {
            title: String::new(),
            artist: String::new(),
            album: String::new(),
            art_path: String::new(),
            status: PlaybackStatus::Stopped,
            position_us: 0,
            length_us: 0,
            duration_secs: 0,
            position_secs: 0,
            player_name: String::new(),
            shuffle: false,
        }
    }

    /// Whether something is loaded (the title is not empty).
    pub fn has_content(&self) -> (b: bool)
        ensures
            b == (self.title@.len() > 0),
    {
        !self.title.as_str().is_empty()
    }

    /// Read a `playerctl metadata` report.
    pub fn from_report(out: &str) -> (m: Self)
        ensures
            report_state(out@, m),
    {
        let ls = split_lines(out);
        let status_line = line(&ls, 4, "Stopped");
        let pos_us = micros(line(&ls, 5, "0").as_str());
        let len_us = micros(line(&ls, 6, "0").as_str());
        let shuffle_line = line(&ls, 8, "false");
        let sh = trim_str(shuffle_line.as_str());
        MediaState {
            title: line(&ls, 0, ""),
            artist: line(&ls, 1, ""),
            album: line(&ls, 2, ""),
            art_path: line(&ls, 3, ""),
            status: PlaybackStatus::from_str(status_line.as_str()),
            position_us: pos_us,
            length_us: len_us,
            duration_secs: len_us / 1_000_000,
            position_secs: pos_us / 1_000_000,
            player_name: line(&ls, 7, ""),
            shuffle: str_eq(sh.as_str(), "true") || str_eq(sh.as_str(), "True"),
        }
    }
}

// ---- album art ----------------------------------------------------------------

/// djb2 over bytes, wrapping at 64 bits.
pub open spec fn djb2(b: Seq<u8>) -> u64
    decreases b.len(),
{
    if b.len() == 0 {
        5381
    } else {
        ((djb2(b.drop_last()) as int * 33 + b.last() as int) % 0x1_0000_0000_0000_0000) as u64
    }
}

/// The cache key of an art URL: djb2 over its UTF-8 bytes.
pub fn simple_hash(s: &str) -> (h: u64)
    ensures
        h == djb2(s.spec_bytes()),
{
    let b = s.as_bytes();
    let mut h: u64 = 5381;
    let mut i: usize = 0;
    while i < b.len()
        invariant
            b@ == s.spec_bytes(),
            i <= b@.len(),
            h == djb2(b@.take(i as int)),
        decreases b.len() - i,
    {
        proof {
            assert(b@.take(i as int + 1).drop_last() =~= b@.take(i as int));
        }
        let m = h.wrapping_mul(33);
        h = m.wrapping_add(b[i] as u64);
        assert(h == djb2(b@.take(i as int + 1))) by {
            let x = djb2(b@.take(i as int));
            assert(m == ((x as int * 33) % 0x1_0000_0000_0000_0000) as u64);
            assert(((((x as int * 33) % 0x1_0000_0000_0000_0000) + b@[i as int] as int) % 0x1_0000_0000_0000_0000)
                == ((x as int * 33 + b@[i as int] as int) % 0x1_0000_0000_0000_0000)) by (nonlinear_arith);
        }
        i = i + 1;
    }
    assert(b@.take(i as int) =~= b@);
    h
}

/// Where album art comes from.
#[derive(Debug, Clone)]
pub enum ArtSource {
    /// No art
    Missing,
    /// A local file
    File(String),
    /// A remote image, cached at `cache` (downloaded when not cached yet)
    Remote { url: String, cache: String },
}

/// The art an art URL designates: `file://` URLs name a local file, HTTP(S)
/// URLs a remote image cached at `/tmp/nova-art-<hash>.img`, anything else
/// (or nothing) no art.
pub open spec fn art_source_of(url: Seq<char>, hash: u64, a: ArtSource) -> bool {
    if url.len() == 0 {
        a is Missing
    } else {
        match strip_prefix(url, "file://"@) {
            Some(p) => a matches ArtSource::File(f) && f@ == p,
            None => if starts_with(url, "http://"@) || starts_with(url, "https://"@) {
                a matches ArtSource::Remote { url: u, cache } && u@ == url
                    && cache@ == "/tmp/nova-art-"@ + dec(hash as nat) + ".img"@
            } else {
                a is Missing
            },
        }
    }
}

pub fn art_source(url: &str) -> (a: ArtSource)
    ensures
        art_source_of(url@, djb2(url.spec_bytes()), a),
{
    if url.is_empty() {
        return ArtSource::Missing;
    }
    match str_strip_prefix(url, "file://") {
        Some(p) => return ArtSource::File(p),
        None => {},
    }
    if str_starts_with(url, "http://") || str_starts_with(url, "https://") {
        let h = simple_hash(url);
        let mut cache = concat("/tmp/nova-art-", u64_to_string(h).as_str());
        push_str(&mut cache, ".img");
        ArtSource::Remote { url: url.to_owned(), cache }
    } else {
        ArtSource::Missing
    }
}

// ---- display ------------------------------------------------------------------

/// Whole minutes, a colon, and the remaining seconds on two digits.
pub open spec fn duration_text(secs: u64) -> Seq<char> {
    let s = (secs % 60) as nat;
    dec((secs / 60) as nat) + ":"@ + (if s < 10 { "0"@ + dec(s) } else { dec(s) })
}

pub fn format_duration(secs: u64) -> (r: String)
    ensures
        r@ == duration_text(secs),
{
    let m = secs / 60;
    let s = secs % 60;
    let mut r = concat(u64_to_string(m).as_str(), ":");
    if s < 10 {
        push_str(&mut r, "0");
    }
    push_str(&mut r, u64_to_string(s).as_str());
    r
}

/// The title shown: the track's, or `Nothing Playing`.
pub fn title_text(title: &str) -> (r: &str)
    ensures
        title@.len() == 0 ==> r@ == "Nothing Playing"@,
        title@.len() > 0 ==> r@ == title@,
{
    if title.is_empty() {
        "Nothing Playing"
    } else {
        title
    }
}

/// What `char::to_uppercase` yields for `c`.
pub uninterp spec fn uppercase_of(c: char) -> Seq<char>;

/// `char::to_uppercase`, collected. The contract names the result only.
#[verifier::external_body]
fn char_to_uppercase(c: char) -> (r: String)
    ensures
        r@ == uppercase_of(c),
{
    c.to_uppercase().collect()
}

/// The player's name as shown: its first letter upper-cased.
pub open spec fn player_display_of(name: Seq<char>) -> Seq<char> {
    if name.len() == 0 {
        Seq::empty()
    } else {
        uppercase_of(name[0]) + name.drop_first()
    }
}

pub fn player_display(name: &str) -> (r: String)
    ensures
        r@ == player_display_of(name@),
{
    let v = crate::text::to_chars(name);
    if v.len() == 0 {
        return String::new();
    }
    let mut r = char_to_uppercase(v[0]);
    let rest = crate::text::string_of(&v, 1, v.len());
    push_str(&mut r, rest.as_str());
    assert(v@.subrange(1, v@.len() as int) =~= v@.drop_first());
    r
}

/// The `playerctl` arguments a media button runs, if the action is one.
pub open spec fn media_args(action: Seq<char>) -> Option<Seq<Seq<char>>> {
    if action == "media::prev"@ {
        Some(seq!["previous"@])
    } else if action == "media::play_pause"@ {
        Some(seq!["play-pause"@])
    } else if action == "media::next"@ {
        Some(seq!["next"@])
    } else if action == "media::shuffle"@ {
        Some(seq!["shuffle"@, "Toggle"@])
    } else {
        None
    }
}

/// The media widget's buttons and the same actions on a template button run
/// one player command: where the widget hands `playerctl` one argument, a
/// template button runs `playerctl ` followed by it. Each button's argument is
/// its own verb (`media::next` → `next`, `media::prev` → `previous`,
/// `media::play_pause` → `play-pause`), so next and previous differ; and
/// every media action is named `media::…`.
pub proof fn law_media_buttons(action: Seq<char>)
    ensures
        media_args(action) matches Some(a) ==> (a.len() == 1 ==> action_shell(action) == Some("playerctl "@ + a[0])),
        media_args(action) is Some ==> starts_with(action, "media::"@),
        media_args("media::next"@) == Some(seq!["next"@]),
        media_args("media::prev"@) == Some(seq!["previous"@]),
        media_args("media::play_pause"@) == Some(seq!["play-pause"@]),
        media_args("media::next"@) != media_args("media::prev"@),
{
    reveal_strlit("media::play_pause");
    reveal_strlit("media::prev");
    reveal_strlit("media::next");
    reveal_strlit("media::shuffle");
    reveal_strlit("media::stop");
    reveal_strlit("media::");
    reveal_strlit("next");
    reveal_strlit("previous");
    reveal_strlit("play-pause");
    reveal_strlit("playerctl ");
    reveal_strlit("playerctl play-pause");
    reveal_strlit("playerctl previous");
    reveal_strlit("playerctl next");
    assert("playerctl "@ + "next"@ =~= "playerctl next"@);
    assert("playerctl "@ + "previous"@ =~= "playerctl previous"@);
    assert("playerctl "@ + "play-pause"@ =~= "playerctl play-pause"@);
    assert("next"@.len() != "previous"@.len());
    assert(seq!["next"@] != seq!["previous"@]) by {
        assert(seq!["next"@][0] != seq!["previous"@][0]);
    }
    let (pp, pv, nx, sh) = ("media::play_pause"@, "media::prev"@, "media::next"@, "media::shuffle"@);
    assert(pv != pp && nx != pp && sh != pp && sh != pv && sh != nx) by {
        assert(pv.len() != pp.len() && nx.len() != pp.len() && sh.len() != pp.len() && sh.len() != pv.len()
            && sh.len() != nx.len());
    }
    assert(nx != pv) by {
        assert(nx[7] != pv[7]);
    }
    assert(action_shell(pv) == Some("playerctl previous"@));
    assert(action_shell(nx) == Some("playerctl next"@));
    assert(action_shell(pp) == Some("playerctl play-pause"@));
    if media_args(action) is Some {
        assert(starts_with(pv, "media::"@) && starts_with(pp, "media::"@) && starts_with(nx, "media::"@)
            && starts_with(sh, "media::"@)) by {
            assert(pv.take(7) =~= "media::"@);
            assert(pp.take(7) =~= "media::"@);
            assert(nx.take(7) =~= "media::"@);
            assert(sh.take(7) =~= "media::"@);
        }
    }
}

pub fn media_command(action: &str) -> (r: Option<Vec<&'static str>>)
    ensures
        match r {
            Some(a) => media_args(action@) == Some(a@.map_values(|x: &str| x@)),
            None => media_args(action@) is None,
        },
{
    let r = if str_eq(action, "media::prev") {
        Some(vec!["previous"])
    } else if str_eq(action, "media::play_pause") {
        Some(vec!["play-pause"])
    } else if str_eq(action, "media::next") {
        Some(vec!["next"])
    } else if str_eq(action, "media::shuffle") {
        Some(vec!["shuffle", "Toggle"])
    } else {
        None
    };
    proof {
        if r is Some {
            assert(media_args(action@) == Some(r->0@.map_values(|x: &str| x@)));
        }
    }
    r
}

/// The media widget's settings.
#[derive(Debug, Clone, Copy)]
pub struct MediaOptions {
    pub show_art: bool,
    pub show_album: bool,
    pub show_player: bool,
    pub show_progress: bool,
    pub show_time: bool,
    pub show_shuffle: bool,
    pub hide_stopped: bool,
    pub art_size: i32,
    pub max_chars: i32,
}

/// A setting on by default: off only when it is exactly `false`.
pub open spec fn unless_false(vars: Map<Seq<char>, String>, name: Seq<char>) -> bool {
    var_or(vars, name, "true"@) != "false"@
}

/// A setting off by default: on only when it is exactly `true`.
pub open spec fn only_true(vars: Map<Seq<char>, String>, name: Seq<char>) -> bool {
    var_or(vars, name, "false"@) == "true"@
}

pub open spec fn int_setting(vars: Map<Seq<char>, String>, name: Seq<char>, dflt: Seq<char>, d: int) -> int {
    match crate::text::parse_signed(var_or(vars, name, dflt), i32::MIN as int, i32::MAX as int) {
        Some(n) => n,
        None => d,
    }
}

impl MediaOptions {
    /// Settings from the widget's variables.
    pub fn from_context(ctx: &WidgetContext) -> (o: Self)
        ensures
            o.show_art == unless_false(ctx.vars@, "show_art"@),
            o.show_album == unless_false(ctx.vars@, "show_album"@),
            o.show_player == unless_false(ctx.vars@, "show_player"@),
            o.show_progress == unless_false(ctx.vars@, "show_progress"@),
            o.show_time == (var_or(ctx.vars@, "show_time"@, "true"@) == "true"@),
            o.show_shuffle == only_true(ctx.vars@, "show_shuffle"@),
            o.hide_stopped == unless_false(ctx.vars@, "hide_stopped"@),
            o.art_size as int == int_setting(ctx.vars@, "art_size"@, "48"@, 48),
            o.max_chars as int == int_setting(ctx.vars@, "max_chars"@, "24"@, 24),
    {
        let art_size = match crate::text::parse_i32(ctx.var("art_size", "48").as_str()) {
            Some(n) => n,
            None => 48,
        };
        let max_chars = match crate::text::parse_i32(ctx.var("max_chars", "24").as_str()) {
            Some(n) => n,
            None => 24,
        };
        MediaOptions {
            show_art: !str_eq(ctx.var("show_art", "true").as_str(), "false"),
            show_album: !str_eq(ctx.var("show_album", "true").as_str(), "false"),
            show_player: !str_eq(ctx.var("show_player", "true").as_str(), "false"),
            show_progress: !str_eq(ctx.var("show_progress", "true").as_str(), "false"),
            show_time: str_eq(ctx.var("show_time", "true").as_str(), "true"),
            show_shuffle: str_eq(ctx.var("show_shuffle", "false").as_str(), "true"),
            hide_stopped: !str_eq(ctx.var("hide_stopped", "true").as_str(), "false"),
            art_size,
            max_chars,
        }
    }
}

} // verus!
