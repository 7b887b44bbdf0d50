use chrono::{Datelike, NaiveDate};
use options_scanner::dates::{
    contract_expiration_day, days_to_expiration, expiration_days, is_earnings_before_expiration, parse_expiration_dates,
    FALLBACK_EXPIRATION_DAY, MAX_DAY, MIN_DAY, UNIX_EPOCH_DAY,
};

fn day(y: i32, m: u32, d: u32) -> i32 {
    NaiveDate::from_ymd_opt(y, m, d).unwrap().num_days_from_ce()
}

#[test]
fn day_constants_match_chrono() {
    assert_eq!(UNIX_EPOCH_DAY, day(1970, 1, 1) as i64);
    assert_eq!(FALLBACK_EXPIRATION_DAY, day(2025, 1, 1));
}

#[test]
fn timestamps_become_utc_days() {
    // 2024-09-20 13:30:00 UTC
    assert_eq!(contract_expiration_day(1_726_839_000), day(2024, 9, 20));
    assert_eq!(contract_expiration_day(-1), day(1969, 12, 31));
    assert_eq!(contract_expiration_day(i64::MAX), FALLBACK_EXPIRATION_DAY);
    assert_eq!(contract_expiration_day(0), day(1970, 1, 1));
    assert_eq!(contract_expiration_day(i64::MIN), FALLBACK_EXPIRATION_DAY);
    assert_eq!(expiration_days(&vec![86_400, i64::MAX, 86_399]), vec![day(1970, 1, 2), day(1970, 1, 1)]);
}

#[test]
fn timestamp_range_matches_chrono() {
    assert_eq!(MIN_DAY, NaiveDate::MIN.num_days_from_ce());
    assert_eq!(MAX_DAY, NaiveDate::MAX.num_days_from_ce());
    let lo: i64 = (MIN_DAY as i64 - UNIX_EPOCH_DAY) * 86_400;
    let hi: i64 = (MAX_DAY as i64 - UNIX_EPOCH_DAY) * 86_400 + 86_399;
    assert_eq!(expiration_days(&vec![lo - 1, lo, hi, hi + 1]), vec![MIN_DAY, MAX_DAY]);
}

#[test]
fn ymd_dates_parse() {
    let texts = vec!["2025-03-21".to_string(), "garbage".to_string(), "2025-02-30".to_string(), "2026-01-16".to_string()];
    assert_eq!(parse_expiration_dates(&texts), vec![day(2025, 3, 21), day(2026, 1, 16)]);
}

#[test]
fn days_left_until_expiration() {
    assert_eq!(days_to_expiration(day(2025, 1, 31), day(2025, 1, 1)), 30);
    assert_eq!(days_to_expiration(day(2025, 1, 1), day(2025, 1, 1)), 0);
    assert_eq!(days_to_expiration(day(2024, 12, 1), day(2025, 1, 1)), 0);
    assert_eq!(days_to_expiration(i32::MAX, i32::MIN), u32::MAX);
}

#[test]
fn earnings_before_expiration() {
    assert!(is_earnings_before_expiration(Some(10), 11));
    assert!(!is_earnings_before_expiration(Some(11), 11));
    assert!(!is_earnings_before_expiration(None, 11));
}
