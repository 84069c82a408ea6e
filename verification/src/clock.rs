//! The time field: the local wall-clock time rendered in the 12-hour
//! convention as `"HH:MM AM"` or `"HH:MM PM"`, both parts zero-padded
//! to two digits (midnight is `"12:00 AM"`, noon `"12:00 PM"`).
//!
//! The hour and minute come from the system clock through a trusted
//! `chrono` wrapper; the rendering is verified.

use vstd::prelude::*;
use crate::numfmt::spec_digit_char;
use chrono::Timelike;

verus! {

/// A value below 100 rendered as exactly two digits, zero-padded.
pub open spec fn spec_two_digits(n: nat) -> Seq<char> {
    seq![spec_digit_char(n / 10), spec_digit_char(n % 10)]
}

/// The rendered clock: hour in the 12-hour convention, a colon, the
/// minute, a blank, and the AM or PM marker.
pub open spec fn spec_clock(hour: nat, minute: nat) -> Seq<char> {
    spec_two_digits(if hour % 12 == 0 { 12 } else { hour % 12 }) + seq![':'] + spec_two_digits(
        minute,
    ) + seq![' '] + (if hour < 12 { seq!['A', 'M'] } else { seq!['P', 'M'] })
}

fn two_digit_chars(n: u8) -> (r: (char, char))
    requires
        n < 100,
    ensures
        seq![r.0, r.1] == spec_two_digits(n as nat),
{
    let tens = n / 10;
    let ones = n % 10;
    let c0 = if tens == 0 {
        '0'
    } else if tens == 1 {
        '1'
    } else if tens == 2 {
        '2'
    } else if tens == 3 {
        '3'
    } else if tens == 4 {
        '4'
    } else if tens == 5 {
        '5'
    } else if tens == 6 {
        '6'
    } else if tens == 7 {
        '7'
    } else if tens == 8 {
        '8'
    } else {
        '9'
    };
    let c1 = if ones == 0 {
        '0'
    } else if ones == 1 {
        '1'
    } else if ones == 2 {
        '2'
    } else if ones == 3 {
        '3'
    } else if ones == 4 {
        '4'
    } else if ones == 5 {
        '5'
    } else if ones == 6 {
        '6'
    } else if ones == 7 {
        '7'
    } else if ones == 8 {
        '8'
    } else {
        '9'
    };
    (c0, c1)
}

/// Renders an hour-of-day and minute as the clock field.
pub fn format_clock(hour: u8, minute: u8) -> (s: String)
    requires
        hour < 24,
        minute < 60,
    ensures
        s@ == spec_clock(hour as nat, minute as nat),
{
    let h12 = if hour % 12 == 0 {
        12
    } else {
        hour % 12
    };
    let (h0, h1) = two_digit_chars(h12);
    let (m0, m1) = two_digit_chars(minute);
    let mut s = String::new();
    s.push(h0);
    s.push(h1);
    s.push(':');
    s.push(m0);
    s.push(m1);
    s.push(' ');
    if hour < 12 {
        s.push('A');
    } else {
        s.push('P');
    }
    s.push('M');
    proof {
        assert(s@ =~= spec_clock(hour as nat, minute as nat));
    }
    s
}

/// Relies on `chrono::Local::now` and `chrono::Timelike`: `hour`
/// returns the hour number from 0 to 23 and `minute` the minute number
/// from 0 to 59, read from the system clock, so only those ranges are
/// promised.
#[verifier::external_body]
fn local_hour_minute() -> (r: (u8, u8))
    ensures
        r.0 < 24,
        r.1 < 60,
{
    let now = chrono::Local::now();
    (now.hour() as u8, now.minute() as u8)
}

/// Reads the system clock and renders the time field.
pub fn get_current_time() -> (s: String)
    ensures
        exists|h: u8, m: u8| h < 24 && m < 60 && s@ == spec_clock(h as nat, m as nat),
{
    let (h, m) = local_hour_minute();
    let s = format_clock(h, m);
    proof {
        assert(h < 24 && m < 60 && s@ == spec_clock(h as nat, m as nat));
    }
    s
}

} // verus!
