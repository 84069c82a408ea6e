use smplfetch::clock::{format_clock, get_current_time};
use smplfetch::numfmt::u64_to_string;

#[test]
fn midnight_is_twelve_am() {
    assert_eq!(format_clock(0, 0), "12:00 AM");
}

#[test]
fn noon_is_twelve_pm() {
    assert_eq!(format_clock(12, 0), "12:00 PM");
}

#[test]
fn afternoon_hours_wrap_and_zero_pad() {
    assert_eq!(format_clock(13, 5), "01:05 PM");
    assert_eq!(format_clock(23, 59), "11:59 PM");
}

#[test]
fn morning_hours_zero_pad() {
    assert_eq!(format_clock(1, 0), "01:00 AM");
    assert_eq!(format_clock(11, 30), "11:30 AM");
}

#[test]
fn live_time_has_the_clock_shape() {
    let s = get_current_time();
    let cs: Vec<char> = s.chars().collect();
    assert_eq!(cs.len(), 8);
    assert!(cs[0].is_ascii_digit() && cs[1].is_ascii_digit());
    assert_eq!(cs[2], ':');
    assert!(cs[3].is_ascii_digit() && cs[4].is_ascii_digit());
    assert_eq!(cs[5], ' ');
    assert!(cs[6] == 'A' || cs[6] == 'P');
    assert_eq!(cs[7], 'M');
}

#[test]
fn decimal_rendering() {
    assert_eq!(u64_to_string(0), "0");
    assert_eq!(u64_to_string(7), "7");
    assert_eq!(u64_to_string(42), "42");
    assert_eq!(u64_to_string(1073741824), "1073741824");
    assert_eq!(u64_to_string(u64::MAX), "18446744073709551615");
}
