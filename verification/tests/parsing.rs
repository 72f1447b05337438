use pm_ingest::decimal::{parse_decimal, u64_to_string, Decimal};
use pm_ingest::time::{
    days_in_month, is_leap, kst_to_utc, parse_data_time, truncate_to_hour, CivilDateTime,
};

fn civil(year: u16, month: u8, day: u8, hour: u8, minute: u8) -> CivilDateTime {
    CivilDateTime { year, month, day, hour, minute }
}

#[test]
fn decimal_plain_integer() {
    assert_eq!(parse_decimal("35"), Some(Decimal { neg: false, mantissa: 35, scale: 0 }));
    assert_eq!(parse_decimal("0"), Some(Decimal { neg: false, mantissa: 0, scale: 0 }));
    assert_eq!(parse_decimal("007"), Some(Decimal { neg: false, mantissa: 7, scale: 0 }));
}

#[test]
fn decimal_fraction() {
    assert_eq!(parse_decimal("35.5"), Some(Decimal { neg: false, mantissa: 355, scale: 1 }));
    assert_eq!(parse_decimal("0.25"), Some(Decimal { neg: false, mantissa: 25, scale: 2 }));
    assert_eq!(parse_decimal("12.340"), Some(Decimal { neg: false, mantissa: 12340, scale: 3 }));
}

#[test]
fn decimal_signs() {
    assert_eq!(parse_decimal("-3.25"), Some(Decimal { neg: true, mantissa: 325, scale: 2 }));
    assert_eq!(parse_decimal("+8"), Some(Decimal { neg: false, mantissa: 8, scale: 0 }));
}

#[test]
fn decimal_sentinel_is_absent() {
    assert_eq!(parse_decimal("-"), None);
}

#[test]
fn decimal_non_numeric_is_absent() {
    assert_eq!(parse_decimal(""), None);
    assert_eq!(parse_decimal("abc"), None);
    assert_eq!(parse_decimal("3."), None);
    assert_eq!(parse_decimal(".5"), None);
    assert_eq!(parse_decimal("3..4"), None);
    assert_eq!(parse_decimal("12.3.4"), None);
    assert_eq!(parse_decimal(" 35"), None);
    assert_eq!(parse_decimal("3a"), None);
    assert_eq!(parse_decimal("+"), None);
}

#[test]
fn decimal_digit_budget() {
    // eighteen digits fit a u64 mantissa exactly; nineteen are refused
    assert_eq!(
        parse_decimal("999999999999999999"),
        Some(Decimal { neg: false, mantissa: 999999999999999999, scale: 0 })
    );
    assert_eq!(parse_decimal("9999999999999999999"), None);
    assert_eq!(
        parse_decimal("9999999999.99999999"),
        Some(Decimal { neg: false, mantissa: 999999999999999999, scale: 8 })
    );
}

#[test]
fn numeral_rendering() {
    assert_eq!(u64_to_string(0).as_str(), "0");
    assert_eq!(u64_to_string(7).as_str(), "7");
    assert_eq!(u64_to_string(35).as_str(), "35");
    assert_eq!(u64_to_string(1200304).as_str(), "1200304");
}

#[test]
fn data_time_example() {
    assert_eq!(parse_data_time("2024-03-01 14:37"), Some(civil(2024, 3, 1, 14, 37)));
}

#[test]
fn data_time_rejects_bad_shapes() {
    assert_eq!(parse_data_time(""), None);
    assert_eq!(parse_data_time("2024-3-01 14:37"), None);
    assert_eq!(parse_data_time("2024-03-01T14:37"), None);
    assert_eq!(parse_data_time("2024-03-01 14:37:00"), None);
    assert_eq!(parse_data_time("2024/03/01 14:37"), None);
    assert_eq!(parse_data_time("yyyy-mm-dd hh:mm"), None);
}

#[test]
fn data_time_rejects_bad_calendar() {
    assert_eq!(parse_data_time("2024-13-01 10:00"), None);
    assert_eq!(parse_data_time("2024-00-01 10:00"), None);
    assert_eq!(parse_data_time("2024-02-30 10:00"), None);
    assert_eq!(parse_data_time("2024-04-31 10:00"), None);
    assert_eq!(parse_data_time("2024-03-00 10:00"), None);
    assert_eq!(parse_data_time("2024-03-01 24:00"), None);
    assert_eq!(parse_data_time("2024-03-01 14:60"), None);
    assert_eq!(parse_data_time("0000-03-01 14:37"), None);
}

#[test]
fn data_time_leap_day() {
    assert_eq!(parse_data_time("2024-02-29 01:00"), Some(civil(2024, 2, 29, 1, 0)));
    assert_eq!(parse_data_time("2023-02-29 01:00"), None);
    assert_eq!(parse_data_time("2000-02-29 01:00"), Some(civil(2000, 2, 29, 1, 0)));
    assert_eq!(parse_data_time("1900-02-29 01:00"), None);
}

#[test]
fn leap_years() {
    assert!(is_leap(2024));
    assert!(!is_leap(2023));
    assert!(is_leap(2000));
    assert!(!is_leap(1900));
    assert_eq!(days_in_month(2024, 2), 29);
    assert_eq!(days_in_month(2023, 2), 28);
    assert_eq!(days_in_month(2024, 4), 30);
    assert_eq!(days_in_month(2024, 12), 31);
}

#[test]
fn kst_shift_same_day() {
    assert_eq!(kst_to_utc(civil(2024, 3, 1, 14, 37)), civil(2024, 3, 1, 5, 37));
    assert_eq!(kst_to_utc(civil(2024, 3, 1, 9, 0)), civil(2024, 3, 1, 0, 0));
}

#[test]
fn kst_shift_crosses_midnight() {
    assert_eq!(kst_to_utc(civil(2024, 3, 1, 0, 15)), civil(2024, 2, 29, 15, 15));
    assert_eq!(kst_to_utc(civil(2023, 3, 1, 0, 15)), civil(2023, 2, 28, 15, 15));
    assert_eq!(kst_to_utc(civil(2024, 3, 2, 8, 59)), civil(2024, 3, 1, 23, 59));
}

#[test]
fn kst_shift_crosses_year() {
    assert_eq!(kst_to_utc(civil(2024, 1, 1, 5, 0)), civil(2023, 12, 31, 20, 0));
}

#[test]
fn hour_bucket() {
    assert_eq!(truncate_to_hour(civil(2024, 3, 1, 5, 37)), civil(2024, 3, 1, 5, 0));
    assert_eq!(truncate_to_hour(civil(2024, 3, 1, 5, 0)), civil(2024, 3, 1, 5, 0));
}
