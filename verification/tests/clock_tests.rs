use chrono::{NaiveDate, TimeZone, Timelike, Utc};
use galactic_trader::clock::{
    align_to_bucket, eastern_date, eastern_minutes, floor_div, is_regular_hours, local_clock,
    market_hours_utc, regular_hours_at, utc_minutes, RTH_CLOSE_MINUTES, RTH_OPEN_MINUTES,
};
use galactic_trader::hm::{hm_in_range, parse_hm, parse_hm_pair, parse_hm_to_minutes};

fn ms(y: i32, mo: u32, d: u32, h: u32, mi: u32, s: u32) -> i64 {
    Utc.with_ymd_and_hms(y, mo, d, h, mi, s).unwrap().timestamp_millis()
}

fn day(y: i32, mo: u32, d: u32) -> i64 {
    NaiveDate::from_ymd_opt(y, mo, d).unwrap().to_epoch_days() as i64
}

#[test]
fn rth_boundaries_in_winter_and_summer() {
    // 2024-01-16 (tue): 14:30 UTC = 09:30 EST → open; 14:29 → closed; 21:00 UTC = 16:00 → closed
    assert!(is_regular_hours(ms(2024, 1, 16, 14, 30, 0)));
    assert!(!is_regular_hours(ms(2024, 1, 16, 14, 29, 0)));
    assert!(is_regular_hours(ms(2024, 1, 16, 20, 59, 0)));
    assert!(!is_regular_hours(ms(2024, 1, 16, 21, 0, 0)));
    // 2024-07-16 (tue): 13:30 UTC = 09:30 EDT
    assert!(is_regular_hours(ms(2024, 7, 16, 13, 30, 0)));
    assert!(!is_regular_hours(ms(2024, 7, 16, 13, 29, 0)));
}

#[test]
fn weekends_are_closed() {
    assert!(!is_regular_hours(ms(2024, 7, 13, 15, 0, 0))); // sat
    assert!(!is_regular_hours(ms(2024, 7, 14, 15, 0, 0))); // sun
}

#[test]
fn eastern_date_rolls_at_midnight_eastern_not_utc() {
    // 03:30 UTC on jul 17 is 23:30 EDT on jul 16
    let d = eastern_date(ms(2024, 7, 17, 3, 30, 0));
    assert_eq!(d, day(2024, 7, 16));
}

#[test]
fn parse_hm_works() {
    assert_eq!(parse_hm("11:55"), Some(715));
    assert_eq!(parse_hm(""), None);
    assert_eq!(parse_hm("x"), None);
}

#[test]
fn parse_hm_trims_each_field() {
    assert_eq!(parse_hm(" 9 : 30 "), Some(570));
    assert_eq!(parse_hm("15:55:00"), None);
    assert_eq!(parse_hm("+9:05"), Some(545));
    assert_eq!(parse_hm("-9:05"), None);
}

#[test]
fn hm_in_range_rejects_overflowing_hours() {
    assert!(hm_in_range("15:55"));
    assert!(hm_in_range("garbage"));
    assert!(hm_in_range("71582788:15"));
    assert!(!hm_in_range("71582789:00"));
    assert!(!hm_in_range("71582788:16"));
}

#[test]
fn exact_pair_needs_one_colon_and_no_spaces() {
    assert_eq!(parse_hm_pair("15:55"), Some((15, 55)));
    assert_eq!(parse_hm_pair(" 15:55"), None);
    assert_eq!(parse_hm_pair("15:55:00"), None);
    assert_eq!(parse_hm_to_minutes("09:30"), Some(570));
    assert_eq!(parse_hm_to_minutes("9h30"), None);
}

#[test]
fn eastern_minutes_follow_daylight_saving() {
    assert_eq!(eastern_minutes(ms(2024, 1, 16, 14, 30, 0)), RTH_OPEN_MINUTES);
    assert_eq!(eastern_minutes(ms(2024, 7, 16, 13, 30, 0)), RTH_OPEN_MINUTES);
    assert_eq!(eastern_minutes(ms(2024, 7, 16, 20, 0, 0)), RTH_CLOSE_MINUTES);
    assert_eq!(eastern_minutes(ms(2024, 7, 17, 3, 30, 59)), 23 * 60 + 30);
}

#[test]
fn floor_div_rounds_down() {
    assert_eq!(floor_div(7, 2), 3);
    assert_eq!(floor_div(-7, 2), -4);
    assert_eq!(floor_div(-6, 2), -3);
    assert_eq!(floor_div(-1, 1000), -1);
}

#[test]
fn local_clock_before_the_epoch() {
    // 1969-12-31 23:59:59.999 UTC: day -1, minute 1439, a wednesday
    let c = local_clock(-1, 0);
    assert_eq!(c.day, -1);
    assert_eq!(c.minute_of_day, 1439);
    assert_eq!(c.weekday, 2);
    // 1970-01-01 00:00 UTC read five hours behind
    let c = local_clock(0, -5 * 3600);
    assert_eq!(c.day, -1);
    assert_eq!(c.minute_of_day, 19 * 60);
}

#[test]
fn regular_hours_window_edges() {
    assert!(regular_hours_at(0, RTH_OPEN_MINUTES));
    assert!(!regular_hours_at(0, RTH_CLOSE_MINUTES));
    assert!(!regular_hours_at(5, 600));
    assert!(regular_hours_at(4, RTH_CLOSE_MINUTES - 1));
}

#[test]
fn utc_minutes_of_day() {
    assert_eq!(utc_minutes(ms(2024, 1, 15, 15, 56, 0)), 956);
    assert_eq!(utc_minutes(-60_000), 1439);
}

#[test]
fn align_to_bucket_five_min() {
    let aligned = align_to_bucket(ms(2025, 6, 15, 14, 37, 15), 5);
    let t = Utc.timestamp_millis_opt(aligned).unwrap();
    assert_eq!(t.minute(), 35);
    assert_eq!(t.second(), 0);
}

#[test]
fn align_to_bucket_hourly() {
    let aligned = align_to_bucket(ms(2025, 6, 15, 14, 45, 30), 60);
    let t = Utc.timestamp_millis_opt(aligned).unwrap();
    assert_eq!(t.minute(), 0);
    assert_eq!(t.second(), 0);
}

#[test]
fn align_to_bucket_exact_value() {
    assert_eq!(align_to_bucket(ms(2025, 6, 15, 14, 37, 15) + 250, 15), ms(2025, 6, 15, 14, 30, 0));
    assert_eq!(align_to_bucket(ms(2025, 6, 15, 14, 35, 0), 5), ms(2025, 6, 15, 14, 35, 0));
}

#[test]
fn market_hours_utc_summer() {
    // summer (EDT = UTC-4): 9:30 ET = 13:30 UTC, 16:00 ET = 20:00 UTC
    let (open, close) = market_hours_utc(day(2025, 6, 15)).unwrap();
    let open = Utc.timestamp_millis_opt(open).unwrap();
    let close = Utc.timestamp_millis_opt(close).unwrap();
    assert_eq!(open.hour(), 13);
    assert_eq!(open.minute(), 30);
    assert_eq!(close.hour(), 20);
    assert_eq!(close.minute(), 0);
}

#[test]
fn market_hours_utc_winter() {
    // winter (EST = UTC-5): 9:30 ET = 14:30 UTC, 16:00 ET = 21:00 UTC
    let (open, close) = market_hours_utc(day(2025, 1, 15)).unwrap();
    let open = Utc.timestamp_millis_opt(open).unwrap();
    let close = Utc.timestamp_millis_opt(close).unwrap();
    assert_eq!(open.hour(), 14);
    assert_eq!(open.minute(), 30);
    assert_eq!(close.hour(), 21);
    assert_eq!(close.minute(), 0);
}

#[test]
fn market_hours_utc_exact_instants() {
    assert_eq!(
        market_hours_utc(day(2024, 3, 11)),
        Ok((ms(2024, 3, 11, 13, 30, 0), ms(2024, 3, 11, 20, 0, 0)))
    );
}
