//! Calendar dates and local midnights in the system time zone.
//!
//! The time-zone lookups are chrono's; which instant counts as the next
//! local midnight is decided here.
use vstd::prelude::*;
use chrono::offset::LocalResult;
use chrono::{DateTime, Datelike, Local, NaiveDate, TimeZone};

verus! {

/// A date of the proleptic Gregorian calendar.
#[derive(Debug, Clone, Copy, PartialEq, Eq)]
pub struct CivilDate {
    pub year: i32,
    pub month: u32,
    pub day: u32,
}

/// The first and last years that chrono's `NaiveDate` holds.
pub const MIN_DATE_YEAR: i32 = -262143;
pub const MAX_DATE_YEAR: i32 = 262142;

/// Gregorian leap years: every fourth year, except centuries not
/// divisible by 400.
pub open spec fn is_leap_year(y: int) -> bool {
    (y % 4 == 0 && y % 100 != 0) || y % 400 == 0
}

/// The number of days of month `m` of year `y`.
pub open spec fn days_in_month(y: int, m: int) -> int {
    if m == 2 {
        if is_leap_year(y) { 29 } else { 28 }
    } else if m == 4 || m == 6 || m == 9 || m == 11 {
        30
    } else {
        31
    }
}

/// A date that exists and that chrono can represent.
pub open spec fn valid_date(d: CivilDate) -> bool {
    &&& MIN_DATE_YEAR <= d.year <= MAX_DATE_YEAR
    &&& 1 <= d.month <= 12
    &&& 1 <= d.day <= days_in_month(d.year as int, d.month as int)
}

/// The calendar day after `d`, or none after the last representable date
/// (or when `d` is not a date).
pub open spec fn spec_next_date(d: CivilDate) -> Option<CivilDate> {
    if !valid_date(d) {
        None
    } else if d.day < days_in_month(d.year as int, d.month as int) {
        Some(CivilDate { day: (d.day + 1) as u32, ..d })
    } else if d.month < 12 {
        Some(CivilDate { month: (d.month + 1) as u32, day: 1, ..d })
    } else if d.year < MAX_DATE_YEAR {
        Some(CivilDate { year: (d.year + 1) as i32, month: 1, day: 1 })
    } else {
        None
    }
}

/// What the time zone says of a local wall-clock time on some date.
#[derive(Debug, Clone, Copy, PartialEq, Eq)]
pub enum LocalTimes {
    /// The date or the time of day does not exist.
    InvalidTime,
    /// The local time falls in a gap (or the zone could not resolve it).
    Skipped,
    /// It occurs once, at this instant in nanoseconds since the epoch
    /// (none when that does not fit in `i64`).
    Single(Option<i64>),
    /// It occurs twice (a fold), earliest first.
    Ambiguous(Option<i64>, Option<i64>),
}

/// The local date of the instant `t` (nanoseconds since the epoch) in the
/// system time zone, through chrono (`with_timezone(&Local)`,
/// `date_naive`), with the instant it was asked for. Which date that is
/// depends on the machine's time zone; chrono always yields a
/// representable date.
#[verifier::external_body]
fn local_date_of(t: i64) -> (r: (CivilDate, Ghost<i64>))
    ensures
        valid_date(r.0),
        r.1@ == t,
{
    let d = DateTime::from_timestamp_nanos(t).with_timezone(&Local).date_naive();
    (CivilDate { year: d.year(), month: d.month(), day: d.day() }, Ghost(t))
}

/// chrono's `NaiveDate::succ_opt`: the next calendar date, none after the
/// last representable one (none too when `d` is no date).
#[verifier::external_body]
fn next_date(d: CivilDate) -> (r: Option<CivilDate>)
    ensures
        r == spec_next_date(d),
{
    match NaiveDate::from_ymd_opt(d.year, d.month, d.day) {
        Some(nd) => match nd.succ_opt() {
            Some(n) => Some(CivilDate { year: n.year(), month: n.month(), day: n.day() }),
            None => None,
        },
        None => None,
    }
}

/// A question to the time zone: a wall-clock time on a date.
#[derive(Debug, Clone, Copy, PartialEq, Eq)]
pub struct LocalQuery {
    pub date: CivilDate,
    pub hour: u32,
    pub min: u32,
    pub sec: u32,
}

/// chrono's `Local.from_local_datetime` for the wall-clock time
/// `hour:min:sec` on date `d`, each instant in nanoseconds
/// (`timestamp_nanos_opt`), with the question it answers. The time is
/// invalid exactly when the date is or the hour, minute or second is out
/// of range; otherwise the answer depends on the machine's time zone.
#[verifier::external_body]
fn local_instants(d: CivilDate, hour: u32, min: u32, sec: u32) -> (r: (LocalTimes, Ghost<LocalQuery>))
    ensures
        r.1@ == (LocalQuery { date: d, hour, min, sec }),
        (r.0 is InvalidTime) <==> !(valid_date(d) && hour < 24 && min < 60 && sec < 60),
{
    let q = Ghost(LocalQuery { date: d, hour, min, sec });
    let naive = match NaiveDate::from_ymd_opt(d.year, d.month, d.day) {
        Some(nd) => nd.and_hms_opt(hour, min, sec),
        None => None,
    };
    let Some(naive) = naive else { return (LocalTimes::InvalidTime, q) };
    match Local.from_local_datetime(&naive) {
        LocalResult::None => (LocalTimes::Skipped, q),
        LocalResult::Single(a) => (LocalTimes::Single(a.timestamp_nanos_opt()), q),
        LocalResult::Ambiguous(a, b) => (LocalTimes::Ambiguous(a.timestamp_nanos_opt(), b.timestamp_nanos_opt()), q),
    }
}

/// The midnight to cut at, from what the time zone says of a day's
/// 00:00:00: the instant when it occurs exactly once, none when it is
/// skipped, occurs twice, or does not fit.
pub open spec fn spec_midnight_choice(times: LocalTimes) -> Option<i64> {
    match times {
        LocalTimes::Single(x) => x,
        _ => None,
    }
}

/// Chooses the midnight from the time zone's answer.
pub fn midnight_choice(times: LocalTimes) -> (r: Option<i64>)
    ensures
        r == spec_midnight_choice(times),
{
    match times {
        LocalTimes::Single(x) => x,
        _ => None,
    }
}

/// What one step of the midnight search did: the instant whose local date
/// was read, that date, the question put to the time zone (none when the
/// date has no successor), and its answer.
pub struct MidnightStep {
    pub instant: i64,
    pub local_date: CivilDate,
    pub query: Option<LocalQuery>,
    pub times: LocalTimes,
}

/// The midnight that a step yields: the zone's single instant for the
/// next day's 00:00:00, none when there is no next day.
pub open spec fn step_midnight(s: MidnightStep) -> Option<i64> {
    match spec_next_date(s.local_date) {
        Some(_) => spec_midnight_choice(s.times),
        None => None,
    }
}

/// A step that searched from `t` as the rule says: it read `t`'s local
/// date, and asked the zone for 00:00:00 on the day after it (when there
/// is one), which is a valid question.
pub open spec fn midnight_step_ok(t: i64, s: MidnightStep) -> bool {
    &&& s.instant == t
    &&& valid_date(s.local_date)
    &&& match spec_next_date(s.local_date) {
        Some(n) => s.query == Some(LocalQuery { date: n, hour: 0, min: 0, sec: 0 }) && !(s.times is InvalidTime),
        None => s.query is None,
    }
}

/// The midnight that starts the local day after the one holding `t`:
/// the calendar date after `t`'s local date, at 00:00:00 local time, as
/// `midnight_choice` picks it from the time zone's answer; none when there
/// is no next date. The local date and the zone's answer depend on the
/// machine's time zone; the step returned says what was read and asked.
pub(crate) fn next_local_midnight(t: i64) -> (r: (Option<i64>, Ghost<MidnightStep>))
    ensures
        midnight_step_ok(t, r.1@),
        r.0 == step_midnight(r.1@),
{
    let (d, Ghost(read_at)) = local_date_of(t);
    match next_date(d) {
        Some(n) => {
            let (times, Ghost(q)) = local_instants(n, 0, 0, 0);
            let m = midnight_choice(times);
            (m, Ghost(MidnightStep { instant: read_at, local_date: d, query: Some(q), times }))
        },
        None => (None, Ghost(MidnightStep { instant: read_at, local_date: d, query: None, times: LocalTimes::InvalidTime })),
    }
}

} // verus!
