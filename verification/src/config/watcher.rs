//! Recognising changes to the configuration directory: what kind of file
//! changed, and when a change should trigger a reload.
use vstd::prelude::*;
use crate::ipc::{opt_view, IpcAction};
use crate::paths::{extension_of, path_extension};
use crate::text::str_eq;

verus! {

/// The kinds of filesystem event the watcher tells apart.
#[derive(Debug, Clone, Copy, PartialEq, Eq, Structural)]
pub enum ChangeKind {
    Create,
    Modify,
    Remove,
    /// Access and other events that are ignored (for classification,
    /// metadata-only changes too)
    Other,
}

/// Classification of a file change.
#[derive(Debug, Clone, PartialEq, Eq)]
pub enum ChangeEvent {
    /// A CSS file was modified (.css)
    CssChange(String),
    /// A widget definition was modified (.widget)
    WidgetChange(String),
    /// The main config was modified (.yaml, .yml)
    ConfigChange(String),
    /// Some other file changed
    Other(String),
}

/// The classification of a change to the file `p` whose extension is `ext`
/// (`r` is that classification): `.css` a stylesheet, `.widget` a widget
/// definition, `.yaml`/`.yml` the main configuration, anything else other.
pub open spec fn change_for(p: Seq<char>, ext: Option<Seq<char>>, r: ChangeEvent) -> bool {
    let e = match ext {
        Some(e) => e,
        None => Seq::empty(),
    };
    if e == "css"@ {
        r matches ChangeEvent::CssChange(x) && x@ == p
    } else if e == "widget"@ {
        r matches ChangeEvent::WidgetChange(x) && x@ == p
    } else if e == "yaml"@ || e == "yml"@ {
        r matches ChangeEvent::ConfigChange(x) && x@ == p
    } else {
        r matches ChangeEvent::Other(x) && x@ == p
    }
}

/// Classify a change to the file `path`, given its extension `ext`.
pub fn change_for_extension(path: String, ext: Option<&str>) -> (r: ChangeEvent)
    ensures
        change_for(path@, opt_view(ext), r),
{
    let e = match ext {
        Some(e) => e,
        None => "",
    };
    proof {
        reveal_strlit("");
        assert(""@ =~= Seq::<char>::empty());
    }
    assert(e@ == match opt_view(ext) {
        Some(x) => x,
        None => Seq::empty(),
    });
    if str_eq(e, "css") {
        ChangeEvent::CssChange(path)
    } else if str_eq(e, "widget") {
        ChangeEvent::WidgetChange(path)
    } else if str_eq(e, "yaml") || str_eq(e, "yml") {
        ChangeEvent::ConfigChange(path)
    } else {
        ChangeEvent::Other(path)
    }
}

/// What a change of `kind` to the files `paths` is: nothing for ignored
/// kinds or no path; otherwise the first path, classified by its extension.
pub open spec fn classified(kind: ChangeKind, paths: Seq<Seq<char>>, r: Option<ChangeEvent>) -> bool {
    if kind is Other || paths.len() == 0 {
        r is None
    } else {
        r matches Some(c) && change_for(paths[0], path_extension(paths[0]), c)
    }
}

/// Classify a filesystem event by the extension of its first path.
pub fn classify_event(kind: ChangeKind, paths: &Vec<String>) -> (r: Option<ChangeEvent>)
    ensures
        classified(kind, crate::text::views(paths@), r),
{
    if kind == ChangeKind::Other || paths.len() == 0 {
        return None;
    }
    let path = paths[0].clone();
    let ext = extension_of(path.as_str());
    let e: Option<&str> = match &ext {
        Some(x) => Some(x.as_str()),
        None => None,
    };
    assert(crate::text::views(paths@)[0] == paths@[0]@);
    assert(opt_view(e) == path_extension(path@));
    Some(change_for_extension(path, e))
}

/// Minimum time between two reloads of the same kind, in milliseconds.
pub const DEBOUNCE_MS: u64 = 300;

/// Hot-reload decisions: a CSS change reloads the styles, a change to a
/// `.yaml`, `.toml`, `.json` or `.widget` file the whole configuration, each
/// at most once per debounce interval. Times are milliseconds on a monotonic
/// clock.
#[derive(Debug, Clone, Copy)]
pub struct ReloadDebouncer {
    pub last_reload_ms: u64,
    pub last_css_reload_ms: u64,
}

/// Milliseconds from `then` to `now` (zero when `now` is earlier).
pub open spec fn elapsed(now: u64, then: u64) -> int {
    if now >= then {
        now - then
    } else {
        0
    }
}

/// What a file with extension `ext` asks for: `Some(true)` a CSS reload,
/// `Some(false)` a full reload, `None` nothing.
pub open spec fn reload_kind(ext: Option<Seq<char>>) -> Option<bool> {
    match ext {
        Some(e) => if e == "css"@ {
            Some(true)
        } else if e == "yaml"@ || e == "toml"@ || e == "json"@ || e == "widget"@ {
            Some(false)
        } else {
            None
        },
        None => None,
    }
}

/// What a file with extension `ext` asks for (see `reload_kind`).
pub fn reload_kind_of(ext: Option<&str>) -> (r: Option<bool>)
    ensures
        r == reload_kind(opt_view(ext)),
{
    match ext {
        Some(e) => if str_eq(e, "css") {
            Some(true)
        } else if str_eq(e, "yaml") || str_eq(e, "toml") || str_eq(e, "json") || str_eq(e, "widget") {
            Some(false)
        } else {
            None
        },
        None => None,
    }
}

/// The debouncer state and actions after the files `paths` changed at `now`.
pub open spec fn debounce(d: ReloadDebouncer, paths: Seq<Seq<char>>, now: u64) -> (ReloadDebouncer, Seq<IpcAction>)
    decreases paths.len(),
{
    if paths.len() == 0 {
        (d, Seq::empty())
    } else {
        let (d0, acts) = debounce(d, paths.drop_last(), now);
        match reload_kind(path_extension(paths.last())) {
            Some(true) => if elapsed(now, d0.last_css_reload_ms) >= DEBOUNCE_MS {
                (ReloadDebouncer { last_css_reload_ms: now, ..d0 }, acts.push(IpcAction::ReloadCss))
            } else {
                (d0, acts)
            },
            Some(false) => if elapsed(now, d0.last_reload_ms) >= DEBOUNCE_MS {
                (ReloadDebouncer { last_reload_ms: now, ..d0 }, acts.push(IpcAction::Reload))
            } else {
                (d0, acts)
            },
            None => (d0, acts),
        }
    }
}

impl ReloadDebouncer {
    /// A debouncer started at `now` (no reload within the first interval).
    pub fn new(now_ms: u64) -> (d: Self)
        ensures
            d.last_reload_ms == now_ms,
            d.last_css_reload_ms == now_ms,
    {
        ReloadDebouncer { last_reload_ms: now_ms, last_css_reload_ms: now_ms }
    }

    /// The reloads a change of `kind` to `paths` at `now` triggers, path by
    /// path (ignored kinds trigger none).
    pub fn on_change(&mut self, kind: ChangeKind, paths: &Vec<String>, now_ms: u64) -> (r: Vec<IpcAction>)
        ensures
            kind is Other ==> (*final(self) == *old(self) && r@.len() == 0),
            !(kind is Other) ==> (*final(self), r@) == debounce(*old(self), crate::text::views(paths@), now_ms),
            (*final(self), r@) == step(*old(self), kind, crate::text::views(paths@), now_ms),
    {
        let mut r: Vec<IpcAction> = Vec::new();
        if kind == ChangeKind::Other {
            return r;
        }
        let ghost start = *self;
        let mut i: usize = 0;
        while i < paths.len()
            invariant
                i <= paths@.len(),
                (*self, r@) == debounce(start, crate::text::views(paths@).take(i as int), now_ms),
            decreases paths.len() - i,
        {
            proof {
                let t = crate::text::views(paths@).take(i as int + 1);
                assert(t.drop_last() =~= crate::text::views(paths@).take(i as int));
                assert(t.last() == paths@[i as int]@);
            }
            let ext = extension_of(paths[i].as_str());
            let e: Option<&str> = match &ext {
                Some(x) => Some(x.as_str()),
                None => None,
            };
            assert(opt_view(e) == path_extension(paths@[i as int]@));
            match reload_kind_of(e) {
                Some(true) => {
                    let waited = if now_ms >= self.last_css_reload_ms { now_ms - self.last_css_reload_ms } else { 0 };
                    if waited >= DEBOUNCE_MS {
                        r.push(IpcAction::ReloadCss);
                        self.last_css_reload_ms = now_ms;
                    }
                },
                Some(false) => {
                    let waited = if now_ms >= self.last_reload_ms { now_ms - self.last_reload_ms } else { 0 };
                    if waited >= DEBOUNCE_MS {
                        r.push(IpcAction::Reload);
                        self.last_reload_ms = now_ms;
                    }
                },
                None => {},
            }
            i = i + 1;
        }
        assert(crate::text::views(paths@).take(i as int) =~= crate::text::views(paths@));
        r
    }
}

/// Two changes of the same kind of file (stylesheet, or configuration)
/// closer together than the debounce interval trigger one reload, not two.
pub proof fn law_debounce_suppresses(d: ReloadDebouncer, p: Seq<char>, q: Seq<char>, t1: u64, t2: u64)
    requires
        reload_kind(path_extension(p)) is Some,
        reload_kind(path_extension(q)) == reload_kind(path_extension(p)),
        t1 <= t2,
        t2 - t1 < DEBOUNCE_MS,
    ensures
        ({
            let (d1, a1) = debounce(d, seq![p], t1);
            let (d2, a2) = debounce(d1, seq![q], t2);
            a2.len() == 0 || a1.len() == 0
        }),
{
    let e = Seq::<Seq<char>>::empty();
    assert(seq![p].drop_last() =~= e);
    assert(seq![q].drop_last() =~= e);
    assert(seq![p].last() == p);
    assert(seq![q].last() == q);
    assert(debounce(d, e, t1) == (d, Seq::<IpcAction>::empty()));
    let (d1, a1) = debounce(d, seq![p], t1);
    assert(debounce(d1, e, t2) == (d1, Seq::<IpcAction>::empty()));
    if a1.len() > 0 {
        if reload_kind(path_extension(p)) == Some(true) {
            assert(d1.last_css_reload_ms == t1);
        } else {
            assert(d1.last_reload_ms == t1);
        }
    }
}

/// A change to a stylesheet reloads the styles, and a change to a
/// configuration or widget file reloads the configuration, once the debounce
/// interval has passed since the last reload of that kind; other files
/// trigger nothing.
pub proof fn law_change_after_interval_reloads(d: ReloadDebouncer, p: Seq<char>, t: u64)
    ensures
        reload_kind(path_extension(p)) == Some(true) && elapsed(t, d.last_css_reload_ms) >= DEBOUNCE_MS
            ==> debounce(d, seq![p], t).1 == seq![IpcAction::ReloadCss],
        reload_kind(path_extension(p)) == Some(false) && elapsed(t, d.last_reload_ms) >= DEBOUNCE_MS
            ==> debounce(d, seq![p], t).1 == seq![IpcAction::Reload],
        reload_kind(path_extension(p)) is None ==> debounce(d, seq![p], t).1.len() == 0,
{
    let e = Seq::<Seq<char>>::empty();
    assert(seq![p].drop_last() =~= e);
    assert(seq![p].last() == p);
    assert(debounce(d, e, t) == (d, Seq::<IpcAction>::empty()));
    assert(Seq::<IpcAction>::empty().push(IpcAction::ReloadCss) =~= seq![IpcAction::ReloadCss]);
    assert(Seq::<IpcAction>::empty().push(IpcAction::Reload) =~= seq![IpcAction::Reload]);
}


/// One event seen by the watcher: a change of `kind` to `paths` at `now`.
pub open spec fn step(d: ReloadDebouncer, kind: ChangeKind, paths: Seq<Seq<char>>, now: u64) -> (ReloadDebouncer, Seq<IpcAction>) {
    if kind is Other {
        (d, Seq::empty())
    } else {
        debounce(d, paths, now)
    }
}

/// The watcher fed the events `evs` (kind, paths, arrival time) in order:
/// its final state, and each action it sent with the time it was sent.
pub open spec fn run(d: ReloadDebouncer, evs: Seq<(ChangeKind, Seq<Seq<char>>, u64)>) -> (ReloadDebouncer, Seq<(IpcAction, u64)>)
    decreases evs.len(),
{
    if evs.len() == 0 {
        (d, Seq::empty())
    } else {
        let (d0, sent) = run(d, evs.drop_last());
        let e = evs.last();
        let (d1, acts) = step(d0, e.0, e.1, e.2);
        (d1, sent + acts.map_values(|a: IpcAction| (a, e.2)))
    }
}

/// An action is in `s` pushed with `y` exactly when it is `y` or in `s`.
proof fn lemma_push_contains(s: Seq<IpcAction>, y: IpcAction, x: IpcAction)
    ensures
        s.push(y).contains(x) == (s.contains(x) || x == y),
{
    if s.contains(x) {
        let k = choose|k: int| 0 <= k < s.len() && s[k] == x;
        assert(s.push(y)[k] == x);
    }
    if x == y {
        assert(s.push(y)[s.len() as int] == x);
    }
    if s.push(y).contains(x) {
        let k = choose|k: int| 0 <= k < s.len() + 1 && s.push(y)[k] == x;
        if k < s.len() {
            assert(s[k] == x);
        }
    }
}

/// What one batch of paths at `now` did, going from `d` to `d1` and sending
/// `acts`: only reload actions, each at most once, each only when the
/// interval has passed since the last one of its kind, whose time then
/// becomes `now`; the time of a kind not sent stays.
pub open spec fn batch_ok(d: ReloadDebouncer, d1: ReloadDebouncer, acts: Seq<IpcAction>, now: u64) -> bool {
    &&& forall|i: int| 0 <= i < acts.len() ==> (#[trigger] acts[i] == IpcAction::Reload
        || acts[i] == IpcAction::ReloadCss)
    &&& forall|i: int, j: int| 0 <= i < j < acts.len() ==> #[trigger] acts[i] != #[trigger] acts[j]
    &&& if acts.contains(IpcAction::ReloadCss) {
        d.last_css_reload_ms + DEBOUNCE_MS <= now && d1.last_css_reload_ms == now
    } else {
        d1.last_css_reload_ms == d.last_css_reload_ms
    }
    &&& if acts.contains(IpcAction::Reload) {
        d.last_reload_ms + DEBOUNCE_MS <= now && d1.last_reload_ms == now
    } else {
        d1.last_reload_ms == d.last_reload_ms
    }
}

/// Sending the reload `y` on top of a well-behaved batch keeps it
/// well-behaved, when the interval has passed for its kind.
proof fn lemma_batch_push(
    d: ReloadDebouncer,
    d0: ReloadDebouncer,
    acts0: Seq<IpcAction>,
    d1: ReloadDebouncer,
    y: IpcAction,
    now: u64,
)
    requires
        batch_ok(d, d0, acts0, now),
        y == IpcAction::ReloadCss ==> elapsed(now, d0.last_css_reload_ms) >= DEBOUNCE_MS
            && d1 == (ReloadDebouncer { last_css_reload_ms: now, ..d0 }),
        y == IpcAction::Reload ==> elapsed(now, d0.last_reload_ms) >= DEBOUNCE_MS
            && d1 == (ReloadDebouncer { last_reload_ms: now, ..d0 }),
        y == IpcAction::Reload || y == IpcAction::ReloadCss,
    ensures
        batch_ok(d, d1, acts0.push(y), now),
{
    let acts = acts0.push(y);
    assert(!acts0.contains(y));
    lemma_push_contains(acts0, y, IpcAction::Reload);
    lemma_push_contains(acts0, y, IpcAction::ReloadCss);
    assert forall|i: int| 0 <= i < acts.len() implies (#[trigger] acts[i] == IpcAction::Reload
        || acts[i] == IpcAction::ReloadCss) by {
        if i < acts0.len() {
            assert(acts[i] == acts0[i]);
        }
    }
    assert forall|i: int, j: int| 0 <= i < j < acts.len() implies #[trigger] acts[i] != #[trigger] acts[j] by {
        assert(acts[i] == acts0[i]);
        if j == acts0.len() {
            assert(acts[j] == y);
            if acts0[i] == y {
                assert(acts0.contains(y));
            }
        } else {
            assert(acts[j] == acts0[j]);
        }
    }
}

/// Every batch of paths is well-behaved (`batch_ok`).
proof fn lemma_debounce_once(d: ReloadDebouncer, paths: Seq<Seq<char>>, now: u64)
    ensures
        batch_ok(d, debounce(d, paths, now).0, debounce(d, paths, now).1, now),
    decreases paths.len(),
{
    if paths.len() == 0 {
        assert(batch_ok(d, d, Seq::empty(), now));
    } else {
        lemma_debounce_once(d, paths.drop_last(), now);
        let (d0, acts0) = debounce(d, paths.drop_last(), now);
        let (d1, acts) = debounce(d, paths, now);
        match reload_kind(path_extension(paths.last())) {
            Some(true) => {
                if elapsed(now, d0.last_css_reload_ms) >= DEBOUNCE_MS {
                    lemma_batch_push(d, d0, acts0, d1, IpcAction::ReloadCss, now);
                }
            },
            Some(false) => {
                if elapsed(now, d0.last_reload_ms) >= DEBOUNCE_MS {
                    lemma_batch_push(d, d0, acts0, d1, IpcAction::Reload, now);
                }
            },
            None => {},
        }
    }
}

/// Over any run of the watcher, whatever the events and their times, two
/// sends of the same reload action are at least the debounce interval apart
/// (in send order), and each comes at least that long after the watcher's
/// last reload of its kind before the run (its start).
pub proof fn law_sends_spaced(d: ReloadDebouncer, evs: Seq<(ChangeKind, Seq<Seq<char>>, u64)>)
    ensures
        ({
            let sent = run(d, evs).1;
            &&& forall|i: int| 0 <= i < sent.len() ==> (#[trigger] sent[i]).0 == IpcAction::Reload
                || sent[i].0 == IpcAction::ReloadCss
            &&& forall|i: int, j: int| 0 <= i < j < sent.len() && (#[trigger] sent[i]).0 == (#[trigger] sent[j]).0
                ==> sent[i].1 + DEBOUNCE_MS <= sent[j].1
            &&& forall|i: int| 0 <= i < sent.len() ==> (#[trigger] sent[i]).0 == IpcAction::Reload
                ==> d.last_reload_ms + DEBOUNCE_MS <= sent[i].1
            &&& forall|i: int| 0 <= i < sent.len() ==> (#[trigger] sent[i]).0 == IpcAction::ReloadCss
                ==> d.last_css_reload_ms + DEBOUNCE_MS <= sent[i].1
        }),
{
    lemma_run_spaced(d, evs);
    assert(run_ok(d, run(d, evs).0, run(d, evs).1));
}

/// What a run from `d` to `dn` that sent `sent` keeps: every send is a reload, no earlier than the interval after
/// the start's reload of its kind and no later than the last one recorded;
/// sends of one action are spaced by the interval.
pub open spec fn run_ok(d: ReloadDebouncer, dn: ReloadDebouncer, sent: Seq<(IpcAction, u64)>) -> bool {
    &&& d.last_reload_ms <= dn.last_reload_ms
    &&& d.last_css_reload_ms <= dn.last_css_reload_ms
    &&& forall|i: int| 0 <= i < sent.len() ==> (#[trigger] sent[i]).0 == IpcAction::Reload
        || sent[i].0 == IpcAction::ReloadCss
    &&& forall|i: int| 0 <= i < sent.len() && (#[trigger] sent[i]).0 == IpcAction::Reload
        ==> d.last_reload_ms + DEBOUNCE_MS <= sent[i].1 && sent[i].1 <= dn.last_reload_ms
    &&& forall|i: int| 0 <= i < sent.len() && (#[trigger] sent[i]).0 == IpcAction::ReloadCss
        ==> d.last_css_reload_ms + DEBOUNCE_MS <= sent[i].1 && sent[i].1 <= dn.last_css_reload_ms
    &&& forall|i: int, j: int| 0 <= i < j < sent.len() && (#[trigger] sent[i]).0 == (#[trigger] sent[j]).0
        ==> sent[i].1 + DEBOUNCE_MS <= sent[j].1
}

/// The invariant behind `law_sends_spaced`, by induction over the events.
proof fn lemma_run_spaced(d: ReloadDebouncer, evs: Seq<(ChangeKind, Seq<Seq<char>>, u64)>)
    ensures
        run_ok(d, run(d, evs).0, run(d, evs).1),
    decreases evs.len(),
{
    if evs.len() == 0 {
        assert(run_ok(d, d, Seq::empty()));
    } else {
        let pre = evs.drop_last();
        lemma_run_spaced(d, pre);
        let (d0, sent0) = run(d, pre);
        let e = evs.last();
        let t = e.2;
        let (d1, acts) = step(d0, e.0, e.1, t);
        if e.0 is Other {
            assert(batch_ok(d0, d1, acts, t));
        } else {
            lemma_debounce_once(d0, e.1, t);
        }
        assert(batch_ok(d0, d1, acts, t));
        let news = acts.map_values(|a: IpcAction| (a, t));
        let sent = sent0 + news;
        assert(run(d, evs) == (d1, sent));
        assert forall|i: int| 0 <= i < sent.len() implies (#[trigger] sent[i]).0 == IpcAction::Reload
            || sent[i].0 == IpcAction::ReloadCss by {
            if i >= sent0.len() {
                assert(sent[i] == news[i - sent0.len()]);
                assert(news[i - sent0.len()].0 == acts[i - sent0.len()]);
            } else {
                assert(sent[i] == sent0[i]);
            }
        }
        assert forall|i: int| 0 <= i < sent.len() && (#[trigger] sent[i]).0 == IpcAction::Reload
            implies d.last_reload_ms + DEBOUNCE_MS <= sent[i].1 && sent[i].1 <= d1.last_reload_ms by {
            if i >= sent0.len() {
                let k = i - sent0.len();
                assert(sent[i] == news[k]);
                assert(acts[k] == IpcAction::Reload);
                assert(acts.contains(IpcAction::Reload));
            } else {
                assert(sent[i] == sent0[i]);
            }
        }
        assert forall|i: int| 0 <= i < sent.len() && (#[trigger] sent[i]).0 == IpcAction::ReloadCss
            implies d.last_css_reload_ms + DEBOUNCE_MS <= sent[i].1 && sent[i].1 <= d1.last_css_reload_ms by {
            if i >= sent0.len() {
                let k = i - sent0.len();
                assert(sent[i] == news[k]);
                assert(acts[k] == IpcAction::ReloadCss);
                assert(acts.contains(IpcAction::ReloadCss));
            } else {
                assert(sent[i] == sent0[i]);
            }
        }
        assert forall|i: int, j: int| 0 <= i < j < sent.len() && (#[trigger] sent[i]).0 == (#[trigger] sent[j]).0
            implies sent[i].1 + DEBOUNCE_MS <= sent[j].1 by {
            if j < sent0.len() {
                assert(sent[i] == sent0[i] && sent[j] == sent0[j]);
            } else if i < sent0.len() {
                let k = j - sent0.len();
                assert(sent[j] == news[k]);
                assert(sent[i] == sent0[i]);
                assert(acts.contains(acts[k]));
            } else {
                assert(sent[i] == news[i - sent0.len()] && sent[j] == news[j - sent0.len()]);
                assert(acts[i - sent0.len()] == acts[j - sent0.len()]);
            }
        }
        assert(run_ok(d, d1, sent));
    }
}

} // verus!
