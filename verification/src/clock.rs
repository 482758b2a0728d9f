//! Clock helpers in the **Europe/Paris** time zone (current day, minute of the day,
//! instants), gathered here so that the rest of the code does not read the clock
//! everywhere. Time-zone rules and calendar parsing come from `chrono`/`chrono-tz`.
use chrono::{Datelike, TimeZone, Timelike};
use chrono_tz::Europe::Paris;
use vstd::prelude::*;

verus! {

/// A UTC instant: seconds since the Unix epoch and the sub-second nanoseconds
/// (`DateTime<Utc>::timestamp` and `timestamp_subsec_nanos`). Instants compare
/// lexicographically on `(secs, nanos)`.
#[derive(Debug, Clone, Copy, PartialEq, Eq)]
pub struct UtcTime {
    pub secs: i64,
    pub nanos: u32,
}

/// Day of the week.
#[derive(Debug, Clone, Copy, PartialEq, Eq)]
pub enum Weekday {
    Mon,
    Tue,
    Wed,
    Thu,
    Fri,
    Sat,
    Sun,
}

/// A wall-clock reading (calendar date, time of day, day of week).
#[derive(Debug, Clone, Copy, PartialEq, Eq)]
pub struct LocalDateTime {
    pub year: i32,
    pub month: u32,
    pub day: u32,
    pub hour: u32,
    pub minute: u32,
    pub second: u32,
    pub nanos: u32,
    pub weekday: Weekday,
}

/// An instant together with its Paris wall-clock reading.
#[derive(Debug, Clone, Copy, PartialEq, Eq)]
pub struct ParisTime {
    pub instant: UtcTime,
    pub wall: LocalDateTime,
}

/// Ranges that every wall-clock reading of `chrono` respects.
pub open spec fn wall_ok(l: LocalDateTime) -> bool {
    &&& 1 <= l.month <= 12
    &&& 1 <= l.day <= 31
    &&& l.hour < 24
    &&& l.minute < 60
}

/// Same calendar day.
pub open spec fn same_date(a: LocalDateTime, b: LocalDateTime) -> bool {
    a.year == b.year && a.month == b.month && a.day == b.day
}

/// Minute of the day of a wall-clock reading.
pub open spec fn minute_of_day(l: LocalDateTime) -> int {
    l.hour * 60 + l.minute
}

/// Paris wall clock of an instant (`DateTime::with_timezone(&Europe::Paris)`).
pub uninterp spec fn paris_wall_clock(t: UtcTime) -> LocalDateTime;

/// The instant whose Paris wall clock reads `l`, when there is exactly one
/// (`NaiveDateTime::and_local_timezone(Europe::Paris).single()` on the naive date-time
/// with the fields of `l`).
pub uninterp spec fn paris_instant(l: LocalDateTime) -> Option<UtcTime>;

/// The instant denoted by an RFC 3339 text (`DateTime::parse_from_rfc3339`).
pub uninterp spec fn rfc3339_instant(s: Seq<char>) -> Option<UtcTime>;

/// The naive date-time read from `s` with the `strftime`-style format `fmt`
/// (`NaiveDateTime::parse_from_str`).
pub uninterp spec fn naive_datetime(s: Seq<char>, fmt: Seq<char>) -> Option<LocalDateTime>;

/// The instant at `year-month-day hour:minute:00` in Paris, when that wall-clock time
/// exists and is unambiguous (`Europe::Paris.with_ymd_and_hms(..).single()`).
pub uninterp spec fn paris_ymd_hm(year: i32, month: u32, day: u32, hour: u32, minute: u32) -> Option<
    UtcTime,
>;

/// An instant with its Paris wall clock, as `chrono` reports it.
pub open spec fn paris_time_ok(p: ParisTime) -> bool {
    p.wall == paris_wall_clock(p.instant) && wall_ok(p.wall)
}

/// Day of the week from its number of days since Monday.
pub fn weekday_from_monday(n: u32) -> (w: Weekday)
    ensures
        n == 0 ==> w == Weekday::Mon,
        n == 1 ==> w == Weekday::Tue,
        n == 2 ==> w == Weekday::Wed,
        n == 3 ==> w == Weekday::Thu,
        n == 4 ==> w == Weekday::Fri,
        n == 5 ==> w == Weekday::Sat,
        n >= 6 ==> w == Weekday::Sun,
{
    match n {
        0 => Weekday::Mon,
        1 => Weekday::Tue,
        2 => Weekday::Wed,
        3 => Weekday::Thu,
        4 => Weekday::Fri,
        5 => Weekday::Sat,
        _ => Weekday::Sun,
    }
}

/// Current instant in Paris (`Utc::now().with_timezone(&Europe::Paris)`).
/// Trusted: the reading depends on the system clock; only the consistency of the
/// wall clock with the instant and the documented field ranges are claimed.
#[verifier::external_body]
pub fn paris_now() -> (r: ParisTime)
    ensures
        r.wall == paris_wall_clock(r.instant),
        wall_ok(r.wall),
{
    let d = chrono::Utc::now().with_timezone(&Paris);
    let wall = LocalDateTime { year: d.year(), month: d.month(), day: d.day(), hour: d.hour(),
        minute: d.minute(), second: d.second(), nanos: d.nanosecond(),
        weekday: weekday_from_monday(d.weekday().num_days_from_monday()) };
    ParisTime { instant: UtcTime { secs: d.timestamp(), nanos: d.timestamp_subsec_nanos() }, wall }
}

/// Current epoch seconds (`Utc::now().timestamp()`).
/// Trusted: depends on the system clock; nothing is claimed of the value.
#[verifier::external_body]
pub fn now_unix() -> (r: i64) {
    chrono::Utc::now().timestamp()
}

/// `DateTime::parse_from_rfc3339`, converted to UTC and read in Paris.
/// Trusted: the instant is named by `rfc3339_instant`, its Paris reading by
/// `paris_wall_clock`.
#[verifier::external_body]
pub(crate) fn parse_rfc3339(s: &str) -> (r: Option<ParisTime>)
    ensures
        r is Some <==> rfc3339_instant(s@) is Some,
        r matches Some(p) ==> Some(p.instant) == rfc3339_instant(s@)
            && p.wall == paris_wall_clock(p.instant) && wall_ok(p.wall),
{
    let d = chrono::DateTime::parse_from_rfc3339(s).ok()?.with_timezone(&Paris);
    let wall = LocalDateTime { year: d.year(), month: d.month(), day: d.day(), hour: d.hour(),
        minute: d.minute(), second: d.second(), nanos: d.nanosecond(),
        weekday: weekday_from_monday(d.weekday().num_days_from_monday()) };
    Some(ParisTime { instant: UtcTime { secs: d.timestamp(), nanos: d.timestamp_subsec_nanos() }, wall })
}

/// `NaiveDateTime::parse_from_str(s, fmt)`.
/// Trusted: the reading is named by `naive_datetime`; the documented field ranges hold.
#[verifier::external_body]
pub(crate) fn parse_naive(s: &str, fmt: &str) -> (r: Option<LocalDateTime>)
    ensures
        r == naive_datetime(s@, fmt@),
        r matches Some(l) ==> wall_ok(l),
{
    let d = chrono::NaiveDateTime::parse_from_str(s, fmt).ok()?;
    Some(LocalDateTime { year: d.year(), month: d.month(), day: d.day(), hour: d.hour(),
        minute: d.minute(), second: d.second(), nanos: d.nanosecond(),
        weekday: weekday_from_monday(d.weekday().num_days_from_monday()) })
}

/// `NaiveDateTime::and_local_timezone(Europe::Paris).single()` on the naive date-time
/// with the fields of `l`.
/// Trusted: the instant is named by `paris_instant`, its Paris reading by
/// `paris_wall_clock`.
#[verifier::external_body]
pub(crate) fn resolve_paris(l: LocalDateTime) -> (r: Option<ParisTime>)
    ensures
        r is Some <==> paris_instant(l) is Some,
        r matches Some(p) ==> Some(p.instant) == paris_instant(l)
            && p.wall == paris_wall_clock(p.instant) && wall_ok(p.wall),
{
    let n = chrono::NaiveDate::from_ymd_opt(l.year, l.month, l.day)?
        .and_hms_nano_opt(l.hour, l.minute, l.second, l.nanos)?;
    let d = n.and_local_timezone(Paris).single()?;
    let wall = LocalDateTime { year: d.year(), month: d.month(), day: d.day(), hour: d.hour(),
        minute: d.minute(), second: d.second(), nanos: d.nanosecond(),
        weekday: weekday_from_monday(d.weekday().num_days_from_monday()) };
    Some(ParisTime { instant: UtcTime { secs: d.timestamp(), nanos: d.timestamp_subsec_nanos() }, wall })
}

/// Builds a Paris instant from its components (for the history search).
/// Trusted: `Europe::Paris.with_ymd_and_hms(year, month, day, hour, minute, 0).single()`;
/// the instant is named by `paris_ymd_hm`, its Paris reading by `paris_wall_clock`.
#[verifier::external_body]
pub fn paris_datetime(year: i32, month: u32, day: u32, hour: u32, minute: u32) -> (r: Option<ParisTime>)
    ensures
        r is Some <==> paris_ymd_hm(year, month, day, hour, minute) is Some,
        r matches Some(p) ==> Some(p.instant) == paris_ymd_hm(year, month, day, hour, minute)
            && p.wall == paris_wall_clock(p.instant) && wall_ok(p.wall),
{
    let d = Paris.with_ymd_and_hms(year, month, day, hour, minute, 0).single()?;
    let wall = LocalDateTime { year: d.year(), month: d.month(), day: d.day(), hour: d.hour(),
        minute: d.minute(), second: d.second(), nanos: d.nanosecond(),
        weekday: weekday_from_monday(d.weekday().num_days_from_monday()) };
    Some(ParisTime { instant: UtcTime { secs: d.timestamp(), nanos: d.timestamp_subsec_nanos() }, wall })
}

/// Grid day identifier (`mon`..`sun`) of a day of the week.
pub fn weekday_id(weekday: Weekday) -> (r: &'static str)
    ensures
        r@ == weekday_id_spec(weekday),
{
    match weekday {
        Weekday::Mon => "mon",
        Weekday::Tue => "tue",
        Weekday::Wed => "wed",
        Weekday::Thu => "thu",
        Weekday::Fri => "fri",
        Weekday::Sat => "sat",
        Weekday::Sun => "sun",
    }
}

pub open spec fn weekday_id_spec(weekday: Weekday) -> Seq<char> {
    match weekday {
        Weekday::Mon => "mon"@,
        Weekday::Tue => "tue"@,
        Weekday::Wed => "wed"@,
        Weekday::Thu => "thu"@,
        Weekday::Fri => "fri"@,
        Weekday::Sat => "sat"@,
        Weekday::Sun => "sun"@,
    }
}

/// Current grid day (Paris).
pub fn current_day_id() -> (r: &'static str)
    ensures
        exists|p: ParisTime| paris_time_ok(p) && r@ == weekday_id_spec(p.wall.weekday),
{
    let now = paris_now();
    let r = weekday_id(now.wall.weekday);
    assert(paris_time_ok(now) && r@ == weekday_id_spec(now.wall.weekday));
    r
}

/// Current minute of the day (Paris), `0..1439`.
pub fn current_minute_of_day() -> (r: u32)
    ensures
        r < 1440,
        exists|p: ParisTime| paris_time_ok(p) && r == minute_of_day(p.wall),
{
    let now = paris_now();
    let r = now.wall.hour * 60 + now.wall.minute;
    assert(paris_time_ok(now) && r == minute_of_day(now.wall));
    r
}

} // verus!
