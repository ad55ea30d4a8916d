use kline_trader::calendar::{
    is_current_or_previous_month, month_is_current_or_previous, YearMonth,
};
use kline_trader::window::{get_previous_kline_time_block, TimeWindow, BUCKET_MS};

const HOUR: i64 = 3_600_000;
const DAY: i64 = 86_400_000;
// 2024-05-17T00:00:00Z
const MIDNIGHT: i64 = 1_715_904_000_000;

fn hour_of(ms: i64) -> i64 {
    ms.rem_euclid(DAY) / HOUR
}

#[test]
fn window_of_an_afternoon() {
    // 2024-05-17T13:30:00Z lies in the bucket 12–16; the one before is 8–12.
    let window = get_previous_kline_time_block(1_715_952_600_000);
    assert_eq!(
        window,
        TimeWindow { start_ms: 1_715_932_800_000, end_ms: 1_715_932_800_000 + 14_399_999 }
    );
}

#[test]
fn window_early_in_the_day_is_on_the_day_before() {
    // 2024-05-17T02:15:00Z: the window starts 2024-05-16T20:00:00Z.
    let window = get_previous_kline_time_block(1_715_912_100_000);
    assert_eq!(window.start_ms, 1_715_889_600_000);
    assert_eq!(window.end_ms, MIDNIGHT - 1);
}

#[test]
fn window_for_every_hour_of_a_day() {
    let starts: [i64; 24] =
        [20, 20, 20, 20, 0, 0, 0, 0, 4, 4, 4, 4, 8, 8, 8, 8, 12, 12, 12, 12, 16, 16, 16, 16];
    for hour in 0..24i64 {
        for offset in [0, 1, 1_800_000, HOUR - 1] {
            let now = MIDNIGHT + hour * HOUR + offset;
            let window = get_previous_kline_time_block(now);
            assert_eq!(window.end_ms - window.start_ms, 14_399_999);
            assert_eq!(window.start_ms % HOUR, 0);
            assert_eq!(hour_of(window.start_ms), starts[hour as usize]);
            let day = if hour < 4 { MIDNIGHT - DAY } else { MIDNIGHT };
            assert_eq!(window.start_ms - window.start_ms.rem_euclid(DAY), day);
            assert!(window.end_ms < now);
            assert!(now - window.end_ms <= BUCKET_MS);
        }
    }
}

#[test]
fn window_on_a_bucket_boundary() {
    let window = get_previous_kline_time_block(MIDNIGHT + 8 * HOUR);
    assert_eq!(window.start_ms, MIDNIGHT + 4 * HOUR);
    assert_eq!(window.end_ms, MIDNIGHT + 8 * HOUR - 1);
}

#[test]
fn window_before_the_epoch_and_at_the_limits() {
    let window = get_previous_kline_time_block(-1);
    assert_eq!(window.start_ms, -2 * BUCKET_MS);
    assert_eq!(window.end_ms, -BUCKET_MS - 1);
    let lowest = get_previous_kline_time_block(i64::MIN + 2 * BUCKET_MS);
    assert_eq!(lowest.end_ms - lowest.start_ms, 14_399_999);
    let highest = get_previous_kline_time_block(i64::MAX);
    assert_eq!(highest.end_ms - highest.start_ms, 14_399_999);
    assert_eq!(highest.start_ms.rem_euclid(BUCKET_MS), 0);
}

fn ym(year: i32, month: u32) -> YearMonth {
    YearMonth { year, month }
}

#[test]
fn month_rule_admits_the_same_and_the_previous_month() {
    assert!(month_is_current_or_previous(ym(2024, 5), ym(2024, 5)));
    assert!(month_is_current_or_previous(ym(2024, 4), ym(2024, 5)));
    assert!(!month_is_current_or_previous(ym(2024, 3), ym(2024, 5)));
    assert!(!month_is_current_or_previous(ym(2024, 6), ym(2024, 5)));
    assert!(!month_is_current_or_previous(ym(2023, 5), ym(2024, 5)));
    assert!(!month_is_current_or_previous(ym(2023, 4), ym(2024, 5)));
}

#[test]
fn month_rule_rolls_over_the_year() {
    assert!(month_is_current_or_previous(ym(2023, 12), ym(2024, 1)));
    assert!(!month_is_current_or_previous(ym(2024, 12), ym(2024, 1)));
    assert!(!month_is_current_or_previous(ym(2023, 11), ym(2024, 1)));
    assert!(!month_is_current_or_previous(ym(2022, 12), ym(2024, 1)));
    assert!(!month_is_current_or_previous(ym(2024, 1), ym(2023, 12)));
}

#[test]
fn month_rule_at_the_edges_of_the_types() {
    assert!(month_is_current_or_previous(ym(i32::MAX, 12), ym(i32::MAX, 12)));
    assert!(!month_is_current_or_previous(ym(i32::MAX, 12), ym(i32::MIN, 1)));
    assert!(!month_is_current_or_previous(ym(0, u32::MAX), ym(0, 0)));
    assert!(month_is_current_or_previous(ym(i32::MIN, 12), ym(i32::MIN + 1, 1)));
}

#[test]
fn month_rule_on_instants() {
    let jan_15 = 1_705_276_800_000;
    let feb_10 = 1_707_523_200_000;
    let mar_1 = 1_709_251_200_000;
    let dec_31_2023 = 1_704_067_199_000;
    let jan_1_2024 = 1_704_067_200_000;
    let nov_30_2023 = 1_701_302_400_000;
    assert_eq!(is_current_or_previous_month(jan_15, feb_10), Some(true));
    assert_eq!(is_current_or_previous_month(feb_10, feb_10), Some(true));
    assert_eq!(is_current_or_previous_month(jan_15, mar_1), Some(false));
    assert_eq!(is_current_or_previous_month(dec_31_2023, jan_1_2024), Some(true));
    assert_eq!(is_current_or_previous_month(nov_30_2023, jan_1_2024), Some(false));
    assert_eq!(is_current_or_previous_month(feb_10, jan_15), Some(false));
}

#[test]
fn month_rule_outside_the_calendar() {
    assert_eq!(is_current_or_previous_month(i64::MAX, 0), None);
    assert_eq!(is_current_or_previous_month(0, i64::MIN), None);
    assert_eq!(is_current_or_previous_month(0, 0), Some(true));
}
