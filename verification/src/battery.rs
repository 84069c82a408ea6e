//! Battery percentage selection.
//!
//! The caller reads the first line of each candidate battery capacity
//! file (battery 0, then battery 1) and hands the raw lines in here; a
//! line is `None` when the file could not be opened or read.  The first
//! line that trims to a plain decimal number yields the field
//! `"<n>%"`; when no candidate is readable and parseable the field is
//! the sentinel `"N/A"`.  The number is taken as written, with no
//! clamping to the 0..=100 range.

use vstd::prelude::*;
use crate::numfmt::spec_decimal;
use crate::numfmt::u64_to_string;

verus! {

/// The whitespace characters stripped from both ends of a battery line
/// (blank, tab, and the line-ending characters).
pub open spec fn spec_is_space(c: char) -> bool {
    c == ' ' || c == '\t' || c == '\n' || c == '\r'
}

pub open spec fn spec_trim_start(s: Seq<char>) -> Seq<char>
    decreases s.len(),
{
    if s.len() > 0 && spec_is_space(s[0]) {
        spec_trim_start(s.skip(1))
    } else {
        s
    }
}

pub open spec fn spec_trim_end(s: Seq<char>) -> Seq<char>
    decreases s.len(),
{
    if s.len() > 0 && spec_is_space(s.last()) {
        spec_trim_end(s.drop_last())
    } else {
        s
    }
}

/// `s` with leading and trailing whitespace removed.
pub open spec fn spec_trim(s: Seq<char>) -> Seq<char> {
    spec_trim_end(spec_trim_start(s))
}

pub open spec fn spec_is_digit(c: char) -> bool {
    48 <= c as int && c as int <= 57
}

pub open spec fn spec_digit_val(c: char) -> nat {
    (c as int - 48) as nat
}

pub open spec fn spec_all_digits(s: Seq<char>) -> bool {
    forall|i: int| 0 <= i < s.len() ==> spec_is_digit(s[i])
}

/// The number written by a sequence of decimal digits.
pub open spec fn spec_digits_val(s: Seq<char>) -> nat
    decreases s.len(),
{
    if s.len() == 0 {
        0
    } else {
        spec_digits_val(s.drop_last()) * 10 + spec_digit_val(s.last())
    }
}

/// Parsing a digit string into a `u64`: defined exactly when the string
/// is non-empty, all digits, and the value fits.
pub open spec fn spec_parse_u64(s: Seq<char>) -> Option<u64> {
    if s.len() > 0 && spec_all_digits(s) && spec_digits_val(s) <= u64::MAX {
        Some(spec_digits_val(s) as u64)
    } else {
        None
    }
}

/// The percentage read from one raw battery line: its trimmed text
/// parsed as an unsigned decimal number.
pub open spec fn spec_battery_value(s: Seq<char>) -> Option<u64> {
    spec_parse_u64(spec_trim(s))
}

/// The battery field for an ordered list of raw candidate readings:
/// the first reading whose line parses gives `"<n>%"`; otherwise the
/// sentinel `"N/A"`.
pub open spec fn spec_battery_field(rs: Seq<Option<Seq<char>>>) -> Seq<char>
    decreases rs.len(),
{
    if rs.len() == 0 {
        seq!['N', '/', 'A']
    } else {
        match rs[0] {
            Some(line) => match spec_battery_value(line) {
                Some(n) => spec_decimal(n as nat) + seq!['%'],
                None => spec_battery_field(rs.skip(1)),
            },
            None => spec_battery_field(rs.skip(1)),
        }
    }
}

fn is_space_char(c: char) -> (r: bool)
    ensures
        r == spec_is_space(c),
{
    c == ' ' || c == '\t' || c == '\n' || c == '\r'
}

fn trim_start<'a>(s: &'a str) -> (r: &'a str)
    ensures
        r@ == spec_trim_start(s@),
    decreases s@.len(),
{
    let n = s.unicode_len();
    if n > 0 && is_space_char(s.get_char(0)) {
        let rest = s.substring_char(1, n);
        proof {
            assert(rest@ =~= s@.skip(1));
        }
        trim_start(rest)
    } else {
        s
    }
}

fn trim_end<'a>(s: &'a str) -> (r: &'a str)
    ensures
        r@ == spec_trim_end(s@),
    decreases s@.len(),
{
    let n = s.unicode_len();
    if n > 0 && is_space_char(s.get_char(n - 1)) {
        let rest = s.substring_char(0, n - 1);
        proof {
            assert(rest@ =~= s@.drop_last());
        }
        trim_end(rest)
    } else {
        s
    }
}

/// A digit string read so far can only grow when more digits follow.
proof fn lemma_digits_val_prefix_le(s: Seq<char>, i: int)
    requires
        0 <= i <= s.len(),
    ensures
        spec_digits_val(s.take(i)) <= spec_digits_val(s),
    decreases s.len() - i,
{
    if i == s.len() {
        assert(s.take(i) =~= s);
    } else {
        assert(s.drop_last().take(i) =~= s.take(i)) by {
            assert(forall|j: int|
                0 <= j < i ==> s.drop_last().take(i)[j] == s.take(i)[j]);
        }
        lemma_digits_val_prefix_le(s.drop_last(), i);
        assert(spec_digits_val(s.drop_last()) <= spec_digits_val(s.drop_last()) * 10);
    }
}

fn parse_digits(s: &str) -> (r: Option<u64>)
    ensures
        r == spec_parse_u64(s@),
{
    let n = s.unicode_len();
    if n == 0 {
        return None;
    }
    let mut acc: u64 = 0;
    let mut i: usize = 0;
    while i < n
        invariant
            0 <= i <= n,
            n == s@.len(),
            spec_all_digits(s@.take(i as int)),
            acc == spec_digits_val(s@.take(i as int)),
        decreases n - i,
    {
        let c = s.get_char(i);
        let u = c as u32;
        if u < 48 || u > 57 {
            proof {
                assert(!spec_is_digit(s@[i as int]));
            }
            return None;
        }
        let d = (u - 48) as u64;
        if acc > (u64::MAX - d) / 10 {
            proof {
                let m = (u64::MAX - d) as int;
                vstd::arithmetic::div_mod::lemma_fundamental_div_mod(m, 10);
                assert(acc * 10 + d > u64::MAX);
                assert(s@.take(i as int + 1).drop_last() =~= s@.take(i as int));
                assert(s@.take(i as int + 1).last() == s@[i as int]);
                assert(spec_digits_val(s@.take(i as int + 1)) > u64::MAX);
                lemma_digits_val_prefix_le(s@, i as int + 1);
            }
            return None;
        }
        proof {
            assert(s@.take(i as int + 1).drop_last() =~= s@.take(i as int));
            assert(s@.take(i as int + 1).last() == s@[i as int]);
        }
        acc = acc * 10 + d;
        i += 1;
    }
    proof {
        assert(s@.take(n as int) =~= s@);
    }
    Some(acc)
}

/// Trims one raw battery line and parses it as an unsigned decimal
/// percentage; `None` when the trimmed text is empty, holds a
/// non-digit, or does not fit in a `u64`.
pub fn parse_battery_line(line: &str) -> (r: Option<u64>)
    ensures
        r == spec_battery_value(line@),
{
    parse_digits(trim_end(trim_start(line)))
}

/// Picks the battery field from the ordered raw candidate readings
/// (`None` stands for a source that could not be read).
pub fn get_battery_percentage(readings: &Vec<Option<String>>) -> (s: String)
    ensures
        s@ == spec_battery_field(readings.deep_view()),
{
    let ghost rs = readings.deep_view();
    proof {
        assert(rs.skip(0) =~= rs);
    }
    let mut i: usize = 0;
    while i < readings.len()
        invariant
            0 <= i <= readings.len(),
            rs == readings.deep_view(),
            rs.len() == readings.len(),
            spec_battery_field(rs) == spec_battery_field(rs.skip(i as int)),
        decreases readings.len() - i,
    {
        proof {
            assert(rs.skip(i as int)[0] == rs[i as int]);
            assert(rs.skip(i as int).skip(1) =~= rs.skip(i as int + 1));
        }
        match &readings[i] {
            Some(line) => {
                if let Some(n) = parse_battery_line(line.as_str()) {
                    let mut out = u64_to_string(n);
                    out.push('%');
                    return out;
                }
            },
            None => {},
        }
        i += 1;
    }
    proof {
        assert(rs.skip(i as int) =~= Seq::<Option<Seq<char>>>::empty());
        reveal_strlit("N/A");
    }
    let out = "N/A".to_owned();
    proof {
        assert(out@ =~= seq!['N', '/', 'A']);
    }
    out
}

/// When no candidate battery source yields a parseable reading, the
/// battery field is exactly the sentinel `"N/A"`.
pub proof fn lemma_battery_sentinel(rs: Seq<Option<Seq<char>>>)
    requires
        forall|i: int|
            0 <= i < rs.len() ==> (rs[i] is None || spec_battery_value(rs[i]->0) is None),
    ensures
        spec_battery_field(rs) == seq!['N', '/', 'A'],
    decreases rs.len(),
{
    if rs.len() > 0 {
        assert(rs[0] is None || spec_battery_value(rs[0]->0) is None);
        assert(forall|i: int|
            0 <= i < rs.skip(1).len() ==> rs.skip(1)[i] == rs[i + 1]);
        lemma_battery_sentinel(rs.skip(1));
    }
}

} // verus!
