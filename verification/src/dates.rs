//! Calendar dates (`YYYY-MM-DD`) and local clock times, through `chrono`.
use vstd::prelude::*;
use chrono::Datelike;
use crate::text::digit_char;

verus! {

/// What `chrono` reads from `s` with the format `%Y-%m-%d`: the day number counted from
/// January 1 of year 1 (day 1), or `None` when `s` is not such a date.
pub uninterp spec fn parsed_day_number(s: Seq<char>) -> Option<i32>;

/// What `chrono` writes with the format `%Y-%m-%d` for day number `n` (January 1 of
/// year 1 is day 1), or `None` when `n` is outside the dates it can represent.
pub uninterp spec fn formatted_day(n: i32) -> Option<Seq<char>>;

/// `NaiveDate::parse_from_str(s, "%Y-%m-%d")` followed by `num_days_from_ce`.
#[verifier::external_body]
fn day_number(s: &str) -> (r: Option<i32>)
    ensures
        r == parsed_day_number(s@),
{
    chrono::NaiveDate::parse_from_str(s, "%Y-%m-%d").ok().map(|d| d.num_days_from_ce())
}

/// `NaiveDate::from_num_days_from_ce_opt(n)` written with `format("%Y-%m-%d")`.
#[verifier::external_body]
fn day_text(n: i32) -> (r: Option<String>)
    ensures
        match r {
            Some(t) => formatted_day(n) == Some(t@),
            None => formatted_day(n) is None,
        },
{
    chrono::NaiveDate::from_num_days_from_ce_opt(n).map(|d| d.format("%Y-%m-%d").to_string())
}

/// `Local::now()` written with `format("%Y-%m-%d")`: today's date in the local time
/// zone. Which day it is depends on the clock and the time zone and is not stated;
/// what is stated is that `chrono` reads the text back as a date with the same format.
#[verifier::external_body]
fn local_today() -> (r: String)
    ensures
        parsed_day_number(r@) is Some,
{
    chrono::Local::now().format("%Y-%m-%d").to_string()
}

/// `n` (below 100) as two decimal digits.
pub open spec fn two_digits(n: int) -> Seq<char> {
    seq![digit_char(n / 10), digit_char(n % 10)]
}

/// The clock time `HH:MM` of the second `s` of a day.
pub open spec fn hhmm(s: int) -> Seq<char> {
    two_digits(s / 3600) + ":"@ + two_digits((s % 3600) / 60)
}

/// `t` is the `HH:MM` that a clock shows at Unix time `ts` (the epoch where the
/// calendar cannot hold `ts`, which it can between about 262000 years before and
/// after it) in a time zone whose offset from UTC is less than a day.
pub open spec fn shows_local_time(ts: int, t: Seq<char>) -> bool {
    exists|u: int, off: int|
        #![trigger hhmm((u + off) % 86400)]
        (u == ts || u == 0) && (-8_000_000_000_000 <= ts <= 8_000_000_000_000 ==> u == ts)
            && -86400 < off < 86400 && t == hhmm((u + off) % 86400)
}

/// `DateTime::from_timestamp(ts, 0)` (the epoch when out of range) in the local time
/// zone, written with `format("%H:%M")`. The local offset is a `FixedOffset`, less
/// than a day either way; which offset the machine's time zone gives is not stated.
#[verifier::external_body]
pub(crate) fn local_clock(ts: i64) -> (r: String)
    ensures
        shows_local_time(ts as int, r@),
{
    chrono::DateTime::from_timestamp(ts, 0).unwrap_or_default().with_timezone(&chrono::Local).format(
        "%H:%M",
    ).to_string()
}

/// Why a date could not be computed.
#[derive(Debug, Clone, Copy, PartialEq, Eq)]
pub enum DateError {
    /// The text is not a `YYYY-MM-DD` date.
    NotADate,
    /// The resulting date is outside the calendar's range.
    OutOfRange,
}

/// The date `back` days before `date` (after it when `back` is negative).
pub open spec fn days_before(date: Seq<char>, back: int) -> Result<Seq<char>, DateError> {
    match parsed_day_number(date) {
        None => Err(DateError::NotADate),
        Some(n) => if i32::MIN <= n - back <= i32::MAX {
            match formatted_day((n - back) as i32) {
                Some(t) => Ok(t),
                None => Err(DateError::OutOfRange),
            }
        } else {
            Err(DateError::OutOfRange)
        },
    }
}

/// The view of a date result.
pub open spec fn date_result(r: Result<String, DateError>) -> Result<Seq<char>, DateError> {
    match r {
        Ok(t) => Ok(t@),
        Err(e) => Err(e),
    }
}

/// The date `back` days before `date`, both `YYYY-MM-DD`.
pub fn date_days_before(date: &str, back: i64) -> (r: Result<String, DateError>)
    ensures
        date_result(r) == days_before(date@, back as int),
{
    match day_number(date) {
        None => Err(DateError::NotADate),
        Some(n) => {
            let target: i128 = n as i128 - back as i128;
            if target < i32::MIN as i128 || target > i32::MAX as i128 {
                return Err(DateError::OutOfRange);
            }
            match day_text(target as i32) {
                Some(t) => Ok(t),
                None => Err(DateError::OutOfRange),
            }
        },
    }
}

/// Today's date in the local time zone, `YYYY-MM-DD`.
pub fn today() -> (r: String)
    ensures
        parsed_day_number(r@) is Some,
{
    local_today()
}

/// A span of dates ending on a date: `(first day, last day)`, the first `back` days
/// before the last; an error only when that first day is outside the calendar.
pub open spec fn window_ok(r: Result<(String, String), DateError>, back: int) -> bool {
    match r {
        Ok(w) => parsed_day_number(w.1@) is Some && days_before(w.1@, back) == Ok::<Seq<char>, DateError>(w.0@),
        Err(e) => e == DateError::OutOfRange && exists|t: Seq<char>|
            parsed_day_number(t) is Some && days_before(t, back) == Err::<Seq<char>, DateError>(e),
    }
}

/// The `days` days up to and including today: `(first day, today)`.
pub fn days_window(days: u32) -> (r: Result<(String, String), DateError>)
    ensures
        window_ok(r, days - 1),
{
    let t = today();
    match date_days_before(t.as_str(), days as i64 - 1) {
        Ok(from) => Ok((from, t)),
        Err(e) => Err(e),
    }
}

} // verus!
