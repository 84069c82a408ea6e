//! The memory field: byte counts converted to gibibytes and rendered
//! with one decimal place, as `"<used>/<total> GB"`.
//!
//! The byte counts come from the operating system through a trusted
//! `sysinfo` wrapper that refreshes the measurement immediately before
//! reading; all conversion and formatting is verified.  The gibibyte
//! value is kept as a whole number of tenths, rounding half up.

use vstd::prelude::*;
use vstd::arithmetic::div_mod::lemma_fundamental_div_mod;
use vstd::arithmetic::div_mod::lemma_fundamental_div_mod_converse_div;
use crate::numfmt::spec_decimal;
use crate::numfmt::spec_digit_char;
use crate::numfmt::u64_to_string;
use sysinfo::System;

verus! {

pub const BYTES_PER_GIB: u64 = 1073741824;

pub const HALF_GIB: u64 = 536870912;

/// A byte count in tenths of a gibibyte, rounded half up.
pub open spec fn spec_gib_tenths(bytes: u64) -> nat {
    (bytes as nat * 10 + HALF_GIB as nat) / BYTES_PER_GIB as nat
}

/// A count of tenths rendered with one decimal place, `"<w>.<f>"`.
pub open spec fn spec_one_decimal(tenths: nat) -> Seq<char> {
    spec_decimal(tenths / 10) + seq!['.'] + seq![spec_digit_char(tenths % 10)]
}

/// The whole memory field: used, a slash, total, and the unit.
pub open spec fn spec_memory_field(used: u64, total: u64) -> Seq<char> {
    spec_one_decimal(spec_gib_tenths(used)) + seq!['/'] + spec_one_decimal(
        spec_gib_tenths(total),
    ) + seq![' ', 'G', 'B']
}

fn digit_char_of(d: u64) -> (c: char)
    requires
        d < 10,
    ensures
        c == spec_digit_char(d as nat),
{
    if d == 0 {
        '0'
    } else if d == 1 {
        '1'
    } else if d == 2 {
        '2'
    } else if d == 3 {
        '3'
    } else if d == 4 {
        '4'
    } else if d == 5 {
        '5'
    } else if d == 6 {
        '6'
    } else if d == 7 {
        '7'
    } else if d == 8 {
        '8'
    } else {
        '9'
    }
}

/// Splits the tenths count of `bytes` into its whole part and its
/// single fractional digit.
fn gib_whole_and_frac(bytes: u64) -> (r: (u64, u64))
    ensures
        r.1 < 10,
        r.0 as nat * 10 + r.1 as nat == spec_gib_tenths(bytes),
{
    let whole = bytes / BYTES_PER_GIB;
    let rem = bytes % BYTES_PER_GIB;
    let frac = (rem * 10 + HALF_GIB) / BYTES_PER_GIB;
    proof {
        let g = BYTES_PER_GIB as int;
        let h = HALF_GIB as int;
        let b = bytes as int;
        lemma_fundamental_div_mod(b, g);
        lemma_fundamental_div_mod(rem as int * 10 + h, g);
        let q2 = (rem as int * 10 + h) / g;
        let r2 = (rem as int * 10 + h) % g;
        assert(b * 10 + h == (whole as int * 10 + q2) * g + r2) by (nonlinear_arith)
            requires
                b == whole as int * g + rem as int,
                rem as int * 10 + h == q2 * g + r2,
        ;
        lemma_fundamental_div_mod_converse_div(b * 10 + h, g, whole as int * 10 + q2, r2);
        assert(q2 <= 10) by (nonlinear_arith)
            requires
                rem as int * 10 + h == q2 * g + r2,
                rem < g,
                0 <= r2,
                g == 1073741824,
                h == 536870912,
        ;
        assert((whole as int) < 0x400000000) by (nonlinear_arith)
            requires
                b == whole as int * g + rem as int,
                0 <= rem as int,
                b <= u64::MAX as int,
                g == 1073741824,
        ;
    }
    if frac == 10 {
        (whole + 1, 0)
    } else {
        (whole, frac)
    }
}

fn one_decimal_string(bytes: u64) -> (s: String)
    ensures
        s@ == spec_one_decimal(spec_gib_tenths(bytes)),
{
    let (whole, frac) = gib_whole_and_frac(bytes);
    proof {
        let t = spec_gib_tenths(bytes);
        lemma_fundamental_div_mod_converse_div(t as int, 10, whole as int, frac as int);
        vstd::arithmetic::div_mod::lemma_fundamental_div_mod_converse_mod(
            t as int,
            10,
            whole as int,
            frac as int,
        );
    }
    let mut s = u64_to_string(whole);
    s.push('.');
    s.push(digit_char_of(frac));
    proof {
        assert(s@ =~= spec_one_decimal(spec_gib_tenths(bytes)));
    }
    s
}

/// Renders used and total byte counts as the memory field,
/// `"<used>.<d>/<total>.<d> GB"`.
pub fn format_memory(used_bytes: u64, total_bytes: u64) -> (s: String)
    ensures
        s@ == spec_memory_field(used_bytes, total_bytes),
{
    let mut s = one_decimal_string(used_bytes);
    s.push('/');
    let total_part = one_decimal_string(total_bytes);
    s.append(total_part.as_str());
    s.push(' ');
    s.push('G');
    s.push('B');
    proof {
        assert(s@ =~= spec_memory_field(used_bytes, total_bytes));
    }
    s
}

/// Relies on `sysinfo::System`: `refresh_memory` re-reads the memory
/// counters immediately before `used_memory` and `total_memory` report
/// them, both in bytes.  The counters are whatever the operating
/// system reports at that moment, so nothing is promised of the
/// values.
#[verifier::external_body]
fn read_memory_bytes() -> (r: (u64, u64)) {
    let mut sys = System::new();
    sys.refresh_memory();
    (sys.used_memory(), sys.total_memory())
}

/// Queries the live memory counters and renders the memory field.
pub fn get_memory_usage() -> (s: String)
    ensures
        exists|used: u64, total: u64| s@ == spec_memory_field(used, total),
{
    let (used, total) = read_memory_bytes();
    let s = format_memory(used, total);
    proof {
        assert(s@ == spec_memory_field(used, total));
    }
    s
}

} // verus!
