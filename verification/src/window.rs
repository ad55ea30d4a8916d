//! The time window resolver: from "now" to the four-hour candle that closed
//! last.
//!
//! A UTC day is cut into six buckets that start at hours 0, 4, 8, 12, 16 and
//! 20. The resolver picks the bucket just before the one that holds "now".
//! In the first four hours of a day that is the last bucket of the day
//! before.

use vstd::prelude::*;

verus! {

/// The length of a bucket: four hours in milliseconds.
pub const BUCKET_MS: i64 = 14_400_000;

/// An inclusive range of millisecond timestamps.
#[derive(Clone, Copy, Debug, PartialEq, Eq, Structural)]
pub struct TimeWindow {
    pub start_ms: i64,
    pub end_ms: i64,
}

/// The hour of the UTC day, 0 to 23, that the instant falls in.
pub open spec fn utc_hour(ms: int) -> int {
    (ms % 86_400_000) / 3_600_000
}

/// The number of the UTC day that the instant falls in, day 0 being the day
/// of the Unix epoch.
pub open spec fn utc_day(ms: int) -> int {
    ms / 86_400_000
}

/// The first millisecond of the UTC day that the instant falls in.
pub open spec fn utc_day_start(ms: int) -> int {
    ms - ms % 86_400_000
}

/// The first millisecond of the bucket just before the one that holds `now`.
pub open spec fn previous_bucket_start(now: int) -> int {
    now - now % 14_400_000 - 14_400_000
}

/// The start hour of the bucket before the one that holds hour `hour`:
/// 0–3 gives 20, 4–7 gives 0, 8–11 gives 4, and so on.
pub open spec fn previous_bucket_hour(hour: int) -> int {
    if hour < 4 {
        20
    } else {
        (hour / 4) * 4 - 4
    }
}

/// The number of the UTC day of an instant.
pub fn utc_day_of(ms: i64) -> (day: i64)
    ensures
        day == utc_day(ms as int),
{
    match ms.checked_div_euclid(86_400_000) {
        Some(day) => day,
        None => 0,
    }
}

/// Resolves the window of the most recently closed four-hour candle.
///
/// The window starts on a bucket boundary and ends one millisecond before
/// the next: it lasts exactly 3 h 59 min 59.999 s. Its start hour follows
/// [`previous_bucket_hour`], and it lies on the same UTC day as `now_ms`
/// unless `now_ms` is in the first bucket of its day, in which case it lies
/// on the day before.
///
/// `now_ms` must leave room for two buckets above `i64::MIN`.
pub fn get_previous_kline_time_block(now_ms: i64) -> (window: TimeWindow)
    requires
        now_ms - 28_800_000 >= i64::MIN,
    ensures
        window.start_ms == previous_bucket_start(now_ms as int),
        window.end_ms - window.start_ms == 14_399_999,
        window.start_ms % 3_600_000 == 0,
        utc_hour(window.start_ms as int) == previous_bucket_hour(utc_hour(now_ms as int)),
        utc_hour(window.start_ms as int) == 0 || utc_hour(window.start_ms as int) == 4 || utc_hour(
            window.start_ms as int,
        ) == 8 || utc_hour(window.start_ms as int) == 12 || utc_hour(window.start_ms as int) == 16
            || utc_hour(window.start_ms as int) == 20,
        utc_day_start(window.start_ms as int) == (if utc_hour(now_ms as int) < 4 {
            utc_day_start(now_ms as int) - 86_400_000
        } else {
            utc_day_start(now_ms as int)
        }),
        window.end_ms < now_ms,
{
    let into_bucket: i64 = match now_ms.checked_rem_euclid(BUCKET_MS) {
        Some(r) => r,
        None => 0,
    };
    let start_ms: i64 = now_ms - into_bucket - BUCKET_MS;
    let end_ms: i64 = start_ms + (BUCKET_MS - 1);
    proof {
        lemma_previous_bucket(now_ms as int);
    }
    TimeWindow { start_ms, end_ms }
}

/// Law: for every instant, whatever its UTC hour, the bucket before it
/// starts on the hour, at the hour that [`previous_bucket_hour`] names, on
/// the same day or, for the first bucket of a day, on the day before.
pub proof fn lemma_previous_bucket(now: int)
    ensures
        0 <= utc_hour(now) < 24,
        previous_bucket_start(now) % 3_600_000 == 0,
        utc_hour(previous_bucket_start(now)) == previous_bucket_hour(utc_hour(now)),
        previous_bucket_hour(utc_hour(now)) % 4 == 0,
        0 <= previous_bucket_hour(utc_hour(now)) <= 20,
        utc_day_start(previous_bucket_start(now)) == (if utc_hour(now) < 4 {
            utc_day_start(now) - 86_400_000
        } else {
            utc_day_start(now)
        }),
{
    let day = now / 86_400_000;
    let in_day = now % 86_400_000;
    let bucket = in_day / 14_400_000;
    let in_bucket = in_day % 14_400_000;
    assert(now == day * 86_400_000 + in_day);
    assert(in_day == bucket * 14_400_000 + in_bucket);
    assert(0 <= bucket < 6);
    assert(now == (day * 6 + bucket) * 14_400_000 + in_bucket);
    assert(now % 14_400_000 == in_bucket) by {
        vstd::arithmetic::div_mod::lemma_fundamental_div_mod_converse(
            now,
            14_400_000,
            day * 6 + bucket,
            in_bucket,
        );
    }
    let hour = in_day / 3_600_000;
    assert(hour == utc_hour(now));
    assert(bucket == hour / 4);
    let start = previous_bucket_start(now);
    assert(start == (day * 6 + bucket - 1) * 14_400_000);
    if bucket == 0 {
        assert(start == (day - 1) * 86_400_000 + 72_000_000);
        vstd::arithmetic::div_mod::lemma_fundamental_div_mod_converse(
            start,
            86_400_000,
            day - 1,
            72_000_000,
        );
    } else {
        assert(start == day * 86_400_000 + (bucket - 1) * 14_400_000);
        vstd::arithmetic::div_mod::lemma_fundamental_div_mod_converse(
            start,
            86_400_000,
            day,
            (bucket - 1) * 14_400_000,
        );
    }
    assert(start == ((day * 6 + bucket - 1) * 4) * 3_600_000);
    vstd::arithmetic::div_mod::lemma_fundamental_div_mod_converse(
        start,
        3_600_000,
        (day * 6 + bucket - 1) * 4,
        0,
    );
}

} // verus!
