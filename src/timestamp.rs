//! Deletion timestamps: local date-times read through chrono, and ages in whole days.
use vstd::prelude::*;
use chrono::{Datelike, TimeZone, Timelike};

verus! {

/// A local date and time as its calendar fields. `nanosecond` reaches past
/// one second only during a leap second, which chrono reads as `:59` plus a
/// second's worth of nanoseconds.
#[derive(Debug, Clone, Copy, PartialEq, Eq, Structural)]
pub struct CivilTime {
    pub year: i32,
    pub month: u32,
    pub day: u32,
    pub hour: u32,
    pub minute: u32,
    pub second: u32,
    pub nanosecond: u32,
}

impl CivilTime {
    /// The fields as integers, in the order of their declaration.
    pub open spec fn fields(&self) -> (int, int, int, int, int, int, int) {
        (
            self.year as int,
            self.month as int,
            self.day as int,
            self.hour as int,
            self.minute as int,
            self.second as int,
            self.nanosecond as int,
        )
    }
}

/// Whether chrono reads the text `s` as a date and time in the format `fmt`.
pub uninterp spec fn date_time_accepts(s: Seq<char>, fmt: Seq<char>) -> bool;

/// The calendar fields that chrono reads from the text `s` in the format `fmt`
/// (year, month, day, hour, minute, second, nanosecond).
pub uninterp spec fn date_time_fields(s: Seq<char>, fmt: Seq<char>) -> (int, int, int, int, int, int, int);

/// The one format of a deletion timestamp: `YYYY-MM-DDTHH:MM:SS`.
pub open spec fn deletion_date_format() -> Seq<char> {
    seq!['%', 'Y', '-', '%', 'm', '-', '%', 'd', 'T', '%', 'H', ':', '%', 'M', ':', '%', 'S']
}

/// Days from 1970-01-01 to the given date of the proleptic Gregorian calendar.
pub open spec fn days_from_civil(year: int, month: int, day: int) -> int {
    let y = if month <= 2 {
        year - 1
    } else {
        year
    };
    let era = y / 400;
    let yoe = y - era * 400;
    let mp = (month + 9) % 12;
    let doy = (153 * mp + 2) / 5 + day - 1;
    let doe = yoe * 365 + yoe / 4 - yoe / 100 + doy;
    era * 146097 + doe - 719468
}

/// The seconds since the Unix epoch that the calendar fields `f` would denote
/// in UTC, whole seconds only.
pub open spec fn utc_seconds(f: (int, int, int, int, int, int, int)) -> int {
    days_from_civil(f.0, f.1, f.2) * 86400 + f.3 * 3600 + f.4 * 60 + f.5
}

/// Relies on `chrono::NaiveDateTime::parse_from_str`: whether it accepts, and
/// the fields it reads, depend on the text and the format alone. Its error says
/// only which way the text failed, which nothing here reads.
#[verifier::external_body]
pub(crate) fn parse_date_time(s: &str, fmt: &str) -> (r: Option<CivilTime>)
    ensures
        r is Some == date_time_accepts(s@, fmt@),
        r matches Some(c) ==> c.fields() == date_time_fields(s@, fmt@),
{
    chrono::NaiveDateTime::parse_from_str(s, fmt).ok().map(|d| CivilTime {
        year: d.year(),
        month: d.month(),
        day: d.day(),
        hour: d.hour(),
        minute: d.minute(),
        second: d.second(),
        nanosecond: d.nanosecond(),
    })
}

/// Relies on chrono's `Local` time zone (`from_local_datetime`, then `single`,
/// then `timestamp`): the instant, in seconds since the Unix epoch, that a local
/// date and time denotes on this machine, where it denotes exactly one. Which
/// instant depends on the machine's time zone; its offset is a
/// `chrono::FixedOffset`, which `east_opt` keeps strictly within one day, so the
/// instant lies within a day of the fields read as UTC.
#[verifier::external_body]
pub(crate) fn local_instant(c: &CivilTime) -> (r: Option<i64>)
    ensures
        r matches Some(t) ==> utc_seconds(c.fields()) - 86400 < t < utc_seconds(c.fields()) + 86400,
{
    chrono::NaiveDate::from_ymd_opt(c.year, c.month, c.day)
        .and_then(|d| d.and_hms_nano_opt(c.hour, c.minute, c.second, c.nanosecond))
        .and_then(|d| chrono::Local.from_local_datetime(&d).single())
        .map(|t| t.timestamp())
}

/// Seconds in a day.
pub const SECONDS_PER_DAY: i64 = 86400;

/// Whole days elapsed from `deletion` to `now` (instants in seconds), the
/// fractional remainder dropped toward zero.
pub open spec fn age_in_days(deletion: int, now: int) -> int {
    let d = now - deletion;
    if d >= 0 {
        d / 86400
    } else {
        -((-d) / 86400)
    }
}

/// Days elapsed from `deletion` to `now`, as `age_in_days` says.
pub fn age_days(deletion: i64, now: i64) -> (r: i64)
    ensures
        r == age_in_days(deletion as int, now as int),
{
    let d: i128 = now as i128 - deletion as i128;
    let r: i128 = if d >= 0 {
        d / (SECONDS_PER_DAY as i128)
    } else {
        -((-d) / (SECONDS_PER_DAY as i128))
    };
    assert(-0x1_0000_0000_0000_0000 < d < 0x1_0000_0000_0000_0000);
    assert(-0x1_0000_0000_0000 < r < 0x1_0000_0000_0000) by (nonlinear_arith)
        requires
            -0x1_0000_0000_0000_0000 < d < 0x1_0000_0000_0000_0000,
            d >= 0 ==> r == d / 86400,
            d < 0 ==> r == -((-d) / 86400),
    ;
    r as i64
}

/// The age grows, or stays, as `now` grows: a record never gets younger.
pub proof fn lemma_age_monotonic(deletion: int, now1: int, now2: int)
    requires
        now1 <= now2,
    ensures
        age_in_days(deletion, now1) <= age_in_days(deletion, now2),
{
    let d1 = now1 - deletion;
    let d2 = now2 - deletion;
    if d1 >= 0 {
        assert(d1 / 86400 <= d2 / 86400) by (nonlinear_arith)
            requires
                0 <= d1 <= d2,
        ;
    } else if d2 >= 0 {
        assert(-((-d1) / 86400) <= 0) by (nonlinear_arith)
            requires
                d1 < 0,
        ;
        assert(d2 / 86400 >= 0) by (nonlinear_arith)
            requires
                d2 >= 0,
        ;
    } else {
        assert((-d2) / 86400 <= (-d1) / 86400) by (nonlinear_arith)
            requires
                0 < -d2 <= -d1,
        ;
    }
}

/// Two instants each within a day of calendar times `k` whole days apart are
/// between `k - 2` and `k + 1` days apart in age, whatever the time zone: a
/// record trashed at a local date and seen at a local date `k` days later is
/// about `k` days old.
pub proof fn lemma_age_near_calendar_gap(deletion: int, now: int, from: int, to: int, k: int)
    requires
        from - 86400 < deletion < from + 86400,
        to - 86400 < now < to + 86400,
        to - from == k * 86400,
        k >= 2,
    ensures
        k - 2 <= age_in_days(deletion, now) <= k + 1,
{
    let d = now - deletion;
    assert(k * 86400 - 172800 < d < k * 86400 + 172800);
    assert((k - 2) <= d / 86400 <= k + 1) by (nonlinear_arith)
        requires
            k * 86400 - 172800 < d < k * 86400 + 172800,
            k >= 2,
    ;
}

} // verus!
