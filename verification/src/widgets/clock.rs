//! Clock widget: its formats, and the current local time formatted with them.
use vstd::prelude::*;
use std::fmt::Write;
use crate::widgets::{var_or, WidgetContext};

verus! {

/// Whether `chrono` formats a date, time and offset with `fmt` without an
/// error. The formatter fails on items of the format only (an error item, or
/// an internal item it has no case for, such as the one `%#z` gives), never
/// on the values of a valid date, time and offset, so this depends on `fmt`
/// alone.
pub uninterp spec fn strftime_ok(fmt: Seq<char>) -> bool;

/// Formats `DateTime::UNIX_EPOCH` with `fmt` into a `String` and reports
/// whether that succeeded. Claims: the answer is the name `strftime_ok`.
#[verifier::external_body]
fn strftime_valid(fmt: &str) -> (b: bool)
    ensures
        b == strftime_ok(fmt@),
{
    let mut s = String::new();
    write!(s, "{}", chrono::DateTime::UNIX_EPOCH.format(fmt)).is_ok()
}

/// The text `chrono` formats with `fmt` for the instant `secs` seconds (and
/// `nanos` nanoseconds) after the UNIX epoch, shown at the UTC offset of
/// `offset` seconds; `None` when these make no valid date and time or
/// offset, or the formatter fails on `fmt`.
pub uninterp spec fn instant_text(fmt: Seq<char>, secs: i64, nanos: u32, offset: i32) -> Option<Seq<char>>;

/// `DateTime::from_timestamp(secs, nanos)` at `FixedOffset::east_opt(offset)`,
/// formatted with `fmt` into a `String` (`None` on a formatting error).
/// Claims: the result is the name `instant_text` of the arguments.
#[verifier::external_body]
fn format_instant(fmt: &str, secs: i64, nanos: u32, offset: i32) -> (r: Option<String>)
    ensures
        match r {
            Some(t) => instant_text(fmt@, secs, nanos, offset) == Some(t@),
            None => instant_text(fmt@, secs, nanos, offset) is None,
        },
{
    let off = chrono::FixedOffset::east_opt(offset)?;
    let utc = chrono::DateTime::from_timestamp(secs, nanos)?;
    let mut s = String::new();
    write!(s, "{}", utc.with_timezone(&off).format(fmt)).ok()?;
    Some(s)
}

/// `SystemTime::now().duration_since(UNIX_EPOCH)`, as its whole seconds and
/// the nanoseconds past them; `None` when the system clock reads a time
/// before 1970. Which time comes back depends on the clock and is not
/// claimed.
#[verifier::external_body]
fn since_epoch() -> (r: Option<(u64, u32)>) {
    let d = std::time::SystemTime::now().duration_since(std::time::UNIX_EPOCH).ok()?;
    Some((d.as_secs(), d.subsec_nanos()))
}

/// `DateTime::from_timestamp(secs, nanos)`, then the offset of `Local` at
/// that instant (`TimeZone::offset_from_utc_datetime`), as its
/// `local_minus_utc()`; `None` when the timestamp makes no valid date and
/// time. Which offset comes back depends on the machine's time zone and is
/// not claimed. What is claimed is that a returned offset, with `secs` and
/// `nanos`, makes a valid date, time and offset (`from_timestamp` accepted
/// them, and a `FixedOffset`'s offset is always one `east_opt` accepts), so
/// every format chrono formats without error formats them. Left unsaid, as no
/// argument can rule it out: chrono's time-zone lookup panics when it cannot
/// select a local time type from the system's time-zone data (the `expect` in
/// `offset/local/unix.rs` and the `unwrap` in `offset/local/mod.rs`).
#[verifier::external_body]
fn local_offset_at(secs: i64, nanos: u32) -> (r: Option<i32>)
    ensures
        r matches Some(o) ==> forall|f: Seq<char>| strftime_ok(f) ==> (#[trigger] instant_text(f, secs, nanos, o)) is Some,
{
    let utc = chrono::DateTime::from_timestamp(secs, nanos)?;
    let off = chrono::TimeZone::offset_from_utc_datetime(&chrono::Local, &utc.naive_utc());
    Some(off.local_minus_utc())
}

/// `t` is what `fmt` shows for some instant at some UTC offset.
pub open spec fn shows_some_instant(fmt: Seq<char>, t: Seq<char>) -> bool {
    exists|secs: i64, nanos: u32, offset: i32| #[trigger] instant_text(fmt, secs, nanos, offset) == Some(t)
}

/// A clock reading (`secs` seconds and `nanos` nanoseconds after the UNIX
/// epoch, at a UTC offset of `offset` seconds) formatted with `format`:
/// exactly what `chrono` formats for it, `None` when the seconds do not fit
/// an `i64` or chrono gives nothing for it.
pub fn format_reading(format: &str, secs: u64, nanos: u32, offset: i32) -> (r: Option<String>)
    ensures
        match r {
            Some(t) => secs <= i64::MAX && instant_text(format@, secs as i64, nanos, offset) == Some(t@),
            None => secs > i64::MAX || instant_text(format@, secs as i64, nanos, offset) is None,
        },
{
    if secs > 9_223_372_036_854_775_807u64 {
        return None;
    }
    format_instant(format, secs as i64, nanos, offset)
}

/// The current local time formatted with `format`: the reading of the system
/// clock (`since_epoch`) at the local offset for it (`local_offset_at`),
/// through `format_reading`; `None` when the clock cannot be read as a date
/// and time (a clock set before 1970, or one past what a date can hold).
fn format_now(format: &str) -> (r: Option<String>)
    requires
        strftime_ok(format@),
    ensures
        r matches Some(t) ==> shows_some_instant(format@, t@),
{
    let (secs, nanos) = match since_epoch() {
        Some(t) => t,
        None => return None,
    };
    if secs > 9_223_372_036_854_775_807u64 {
        return None;
    }
    let offset = match local_offset_at(secs as i64, nanos) {
        Some(o) => o,
        None => return None,
    };
    proof {
        assert(instant_text(format@, secs as i64, nanos, offset) is Some);
    }
    format_reading(format, secs, nanos, offset)
}

/// `format_now`, with the empty text when the clock cannot be read.
fn format_now_or_empty(format: &str) -> (r: String)
    requires
        strftime_ok(format@),
    ensures
        shows_some_instant(format@, r@) || r@.len() == 0,
{
    match format_now(format) {
        Some(t) => t,
        None => String::new(),
    }
}

/// The current time formatted with `format` (used by the `clock::time`
/// source): a text `format` shows for some instant, or the empty text when
/// the system clock cannot be read as a date and time.
pub fn get_time(format: &str) -> (r: String)
    requires
        strftime_ok(format@),
    ensures
        shows_some_instant(format@, r@) || r@.len() == 0,
{
    format_now_or_empty(format)
}

/// The current date formatted with `format` (used by the `clock::date`
/// source), or the empty text when the clock cannot be read.
pub fn get_date(format: &str) -> (r: String)
    requires
        strftime_ok(format@),
    ensures
        shows_some_instant(format@, r@) || r@.len() == 0,
{
    format_now_or_empty(format)
}

/// The current day of the week formatted with `format` (used by
/// `clock::day`), or the empty text when the clock cannot be read.
pub fn get_day(format: &str) -> (r: String)
    requires
        strftime_ok(format@),
    ensures
        shows_some_instant(format@, r@) || r@.len() == 0,
{
    format_now_or_empty(format)
}

/// The three lines of the clock.
#[derive(Debug, Clone, Copy, PartialEq, Eq, Structural)]
pub enum ClockField {
    Time,
    Date,
    Day,
}

/// The current time, date or day formatted with `format`: `None` exactly
/// when the format is not one `chrono` accepts; otherwise a text that
/// `format` shows for some instant, or the empty text when the system clock
/// cannot be read as a date and time (set before 1970).
pub fn clock_text(field: ClockField, format: &str) -> (r: Option<String>)
    ensures
        r is Some <==> strftime_ok(format@),
        r matches Some(t) ==> shows_some_instant(format@, t@) || t@.len() == 0,
{
    if !strftime_valid(format) {
        return None;
    }
    match field {
        ClockField::Time => Some(get_time(format)),
        ClockField::Date => Some(get_date(format)),
        ClockField::Day => Some(get_day(format)),
    }
}

/// The clock's formats.
#[derive(Debug, Clone)]
pub struct ClockOptions {
    pub time_format: String,
    pub date_format: String,
    pub day_format: String,
}

impl ClockOptions {
    /// Formats from the widget's variables (`%H:%M:%S`, `%B %-d`, `%A` by default).
    pub fn from_context(ctx: &WidgetContext) -> (o: Self)
        ensures
            o.time_format@ == var_or(ctx.vars@, "time_format"@, "%H:%M:%S"@),
            o.date_format@ == var_or(ctx.vars@, "date_format"@, "%B %-d"@),
            o.day_format@ == var_or(ctx.vars@, "day_format"@, "%A"@),
    {
        ClockOptions {
            time_format: ctx.var("time_format", "%H:%M:%S"),
            date_format: ctx.var("date_format", "%B %-d"),
            day_format: ctx.var("day_format", "%A"),
        }
    }

    /// Whether the day line is shown: an empty day format hides it.
    pub fn shows_day(&self) -> (b: bool)
        ensures
            b == (self.day_format@.len() > 0),
    {
        !self.day_format.as_str().is_empty()
    }
}

} // verus!
