use shortland::calendar::{civil_from_days, day_number, yyyymmdd_number};
use shortland::digits::u64_to_string;

#[test]
fn decimal_rendering_exact_values() {
    assert_eq!(u64_to_string(0), "0");
    assert_eq!(u64_to_string(7), "7");
    assert_eq!(u64_to_string(10), "10");
    assert_eq!(u64_to_string(1234567890), "1234567890");
    assert_eq!(u64_to_string(u64::MAX), "18446744073709551615");
}

#[test]
fn day_numbers_split_at_midnight() {
    assert_eq!(day_number(0), 0);
    assert_eq!(day_number(86399), 0);
    assert_eq!(day_number(86400), 1);
    assert_eq!(day_number(19000 * 86400 + 86340), 19000);
    assert_eq!(day_number(19001 * 86400 + 60), 19001);
}

#[test]
fn civil_dates_exact_values() {
    assert_eq!(civil_from_days(0), Some((1970, 1, 1)));
    assert_eq!(civil_from_days(30), Some((1970, 1, 31)));
    assert_eq!(civil_from_days(31), Some((1970, 2, 1)));
    assert_eq!(civil_from_days(365), Some((1971, 1, 1)));
    // 1972 is the first leap year after the epoch.
    assert_eq!(civil_from_days(365 + 365 + 31 + 28), Some((1972, 2, 29)));
    // 2000 is a leap year (divisible by 400).
    assert_eq!(civil_from_days(11016), Some((2000, 2, 29)));
    assert_eq!(civil_from_days(19000), Some((2022, 1, 8)));
}

#[test]
fn civil_dates_end_at_year_ten_thousand() {
    // The last representable day is 9999-12-31.
    assert_eq!(civil_from_days(2932896), Some((9999, 12, 31)));
    assert_eq!(civil_from_days(2932897), None);
    assert_eq!(civil_from_days(u64::MAX), None);
}

#[test]
fn yyyymmdd_keys_exact_values() {
    assert_eq!(yyyymmdd_number(0), Some(19700101));
    assert_eq!(yyyymmdd_number(19000), Some(20220108));
    assert_eq!(yyyymmdd_number(2932896), Some(99991231));
    assert_eq!(yyyymmdd_number(2932897), None);
}
