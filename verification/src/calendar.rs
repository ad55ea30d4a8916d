//! The calendar month of an instant, and the rule that admits a candle only
//! when it belongs to the current month or to the one before.

use chrono::{Datelike, TimeZone, Utc};
use vstd::prelude::*;

verus! {

/// A year and a month of the proleptic Gregorian calendar, January being 1.
#[derive(Clone, Copy, Debug, PartialEq, Eq, Structural)]
pub struct YearMonth {
    pub year: i32,
    pub month: u32,
}

/// The UTC calendar year and month of the instant `millis` milliseconds
/// after the Unix epoch, as `chrono` reckons them, or `None` where `chrono`
/// has no date for the instant.
pub uninterp spec fn utc_calendar_month(millis: int) -> Option<(int, int)>;

/// Asks `chrono` for the date of an instant: `Utc.timestamp_millis_opt`,
/// then `year()` and `month()` of the single result.
///
/// Trusted: the result is what [`utc_calendar_month`] names.
/// `timestamp_millis_opt` gives no date for an instant outside the range
/// `chrono` can hold, and this returns `None` then; it never panics.
#[verifier::external_body]
fn utc_year_month(millis: i64) -> (found: Option<YearMonth>)
    ensures
        utc_calendar_month(millis as int) == (match found {
            Some(ym) => Some((ym.year as int, ym.month as int)),
            None => None,
        }),
{
    match Utc.timestamp_millis_opt(millis).single() {
        Some(at) => Some(YearMonth { year: at.year(), month: at.month() }),
        None => None,
    }
}

/// The month rule on calendar months: `candle` is the month `now`, or the
/// month just before it. The month before January is December of the year
/// before.
pub open spec fn is_current_or_previous(candle: (int, int), now: (int, int)) -> bool {
    ||| candle == now
    ||| (now.1 > 1 && candle.0 == now.0 && candle.1 + 1 == now.1)
    ||| (now.1 == 1 && candle.0 + 1 == now.0 && candle.1 == 12)
}

/// The month rule on instants. `None` where either instant has no date.
pub open spec fn month_rule(kline_time: int, now: int) -> Option<bool> {
    match (utc_calendar_month(kline_time), utc_calendar_month(now)) {
        (Some(candle), Some(current)) => Some(is_current_or_previous(candle, current)),
        _ => None,
    }
}

/// Decides the month rule for two calendar months.
pub fn month_is_current_or_previous(candle: YearMonth, now: YearMonth) -> (admitted: bool)
    ensures
        admitted == is_current_or_previous(
            (candle.year as int, candle.month as int),
            (now.year as int, now.month as int),
        ),
{
    let candle_year: i64 = candle.year as i64;
    let now_year: i64 = now.year as i64;
    let candle_month: u64 = candle.month as u64;
    let now_month: u64 = now.month as u64;
    (candle_year == now_year && candle_month == now_month) || (now_month > 1 && candle_year
        == now_year && candle_month + 1 == now_month) || (now_month == 1 && candle_year + 1
        == now_year && candle_month == 12)
}

/// Decides whether the candle that opened at `kline_time` belongs to the
/// month of `now_ms` or to the month before it, both in UTC. Returns `None`
/// when one of the two instants lies outside the calendar.
pub fn is_current_or_previous_month(kline_time: i64, now_ms: i64) -> (admitted: Option<bool>)
    ensures
        admitted == month_rule(kline_time as int, now_ms as int),
{
    let candle = utc_year_month(kline_time);
    let current = utc_year_month(now_ms);
    match (candle, current) {
        (Some(candle), Some(current)) => Some(month_is_current_or_previous(candle, current)),
        _ => None,
    }
}

} // verus!
