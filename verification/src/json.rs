//! The structured report: the snapshot as a pretty-printed JSON
//! object with two-space indentation and a fixed schema.
//!
//! The document always carries all six keys, in the order `time`,
//! `user`, `distro`, `arch`, `memory`, `battery`; a suppressed field
//! is rendered as an explicit `null` rather than omitted, so the
//! schema is fixed with nullable fields.  String values are escaped as
//! JSON demands: quote, backslash and the named control characters by
//! a two-character escape, any other control character as
//! `\u00` and two lowercase hex digits.

use vstd::prelude::*;
use crate::text::str_eq;
use crate::snapshot::SnapshotView;
use crate::snapshot::SystemSnapshot;
use crate::render::spec_human_lines;
use crate::render::spec_label_battery;
use crate::render::spec_label_dist;
use crate::render::spec_label_krnl;
use crate::render::spec_label_memory;
use crate::render::spec_label_time;
use crate::render::spec_label_user;
use crate::render::spec_line;

verus! {

pub open spec fn spec_hex_digit(d: nat) -> char {
    if d == 0 {
        '0'
    } else if d == 1 {
        '1'
    } else if d == 2 {
        '2'
    } else if d == 3 {
        '3'
    } else if d == 4 {
        '4'
    } else if d == 5 {
        '5'
    } else if d == 6 {
        '6'
    } else if d == 7 {
        '7'
    } else if d == 8 {
        '8'
    } else if d == 9 {
        '9'
    } else if d == 10 {
        'a'
    } else if d == 11 {
        'b'
    } else if d == 12 {
        'c'
    } else if d == 13 {
        'd'
    } else if d == 14 {
        'e'
    } else {
        'f'
    }
}

/// The value of a lowercase hex digit; 16 marks a non-digit.
pub open spec fn spec_hex_val(c: char) -> nat {
    if c == '0' {
        0
    } else if c == '1' {
        1
    } else if c == '2' {
        2
    } else if c == '3' {
        3
    } else if c == '4' {
        4
    } else if c == '5' {
        5
    } else if c == '6' {
        6
    } else if c == '7' {
        7
    } else if c == '8' {
        8
    } else if c == '9' {
        9
    } else if c == 'a' {
        10
    } else if c == 'b' {
        11
    } else if c == 'c' {
        12
    } else if c == 'd' {
        13
    } else if c == 'e' {
        14
    } else if c == 'f' {
        15
    } else {
        16
    }
}

/// The escape of one character in a JSON string literal.
pub open spec fn spec_escape_char(c: char) -> Seq<char> {
    if c == '"' {
        seq!['\\', '"']
    } else if c == '\\' {
        seq!['\\', '\\']
    } else if c == '\n' {
        seq!['\\', 'n']
    } else if c == '\r' {
        seq!['\\', 'r']
    } else if c == '\t' {
        seq!['\\', 't']
    } else if c == '\u{8}' {
        seq!['\\', 'b']
    } else if c == '\u{c}' {
        seq!['\\', 'f']
    } else if 0 <= c as int && (c as int) < 32 {
        seq!['\\', 'u', '0', '0', spec_hex_digit((c as int / 16) as nat), spec_hex_digit(
            (c as int % 16) as nat,
        )]
    } else {
        seq![c]
    }
}

/// A whole string value, escaped character by character.
pub open spec fn spec_escape(s: Seq<char>) -> Seq<char>
    decreases s.len(),
{
    if s.len() == 0 {
        Seq::empty()
    } else {
        spec_escape_char(s[0]) + spec_escape(s.skip(1))
    }
}

/// The control character with the given code point, for codes below 32.
pub open spec fn spec_ctrl_char(n: nat) -> char {
    if n == 0 {
        '\u{0}'
    } else if n == 1 {
        '\u{1}'
    } else if n == 2 {
        '\u{2}'
    } else if n == 3 {
        '\u{3}'
    } else if n == 4 {
        '\u{4}'
    } else if n == 5 {
        '\u{5}'
    } else if n == 6 {
        '\u{6}'
    } else if n == 7 {
        '\u{7}'
    } else if n == 8 {
        '\u{8}'
    } else if n == 9 {
        '\u{9}'
    } else if n == 10 {
        '\u{a}'
    } else if n == 11 {
        '\u{b}'
    } else if n == 12 {
        '\u{c}'
    } else if n == 13 {
        '\u{d}'
    } else if n == 14 {
        '\u{e}'
    } else if n == 15 {
        '\u{f}'
    } else if n == 16 {
        '\u{10}'
    } else if n == 17 {
        '\u{11}'
    } else if n == 18 {
        '\u{12}'
    } else if n == 19 {
        '\u{13}'
    } else if n == 20 {
        '\u{14}'
    } else if n == 21 {
        '\u{15}'
    } else if n == 22 {
        '\u{16}'
    } else if n == 23 {
        '\u{17}'
    } else if n == 24 {
        '\u{18}'
    } else if n == 25 {
        '\u{19}'
    } else if n == 26 {
        '\u{1a}'
    } else if n == 27 {
        '\u{1b}'
    } else if n == 28 {
        '\u{1c}'
    } else if n == 29 {
        '\u{1d}'
    } else if n == 30 {
        '\u{1e}'
    } else {
        '\u{1f}'
    }
}

pub open spec fn spec_unescape_cons(c: char, rest: Option<Seq<char>>) -> Option<Seq<char>> {
    match rest {
        Some(t) => Some(seq![c] + t),
        None => None,
    }
}

/// Undoes `spec_escape`: reads one escape or plain character at a time
/// from the front; `None` on a malformed escape.
pub open spec fn spec_unescape(s: Seq<char>) -> Option<Seq<char>>
    decreases s.len(),
{
    if s.len() == 0 {
        Some(Seq::empty())
    } else if s[0] == '\\' {
        if s.len() < 2 {
            None
        } else if s[1] == '"' {
            spec_unescape_cons('"', spec_unescape(s.skip(2)))
        } else if s[1] == '\\' {
            spec_unescape_cons('\\', spec_unescape(s.skip(2)))
        } else if s[1] == 'n' {
            spec_unescape_cons('\n', spec_unescape(s.skip(2)))
        } else if s[1] == 'r' {
            spec_unescape_cons('\r', spec_unescape(s.skip(2)))
        } else if s[1] == 't' {
            spec_unescape_cons('\t', spec_unescape(s.skip(2)))
        } else if s[1] == 'b' {
            spec_unescape_cons('\u{8}', spec_unescape(s.skip(2)))
        } else if s[1] == 'f' {
            spec_unescape_cons('\u{c}', spec_unescape(s.skip(2)))
        } else if s[1] == 'u' {
            if s.len() < 6 {
                None
            } else if s[2] == '0' && s[3] == '0' && spec_hex_val(s[4]) < 16 && spec_hex_val(s[5])
                < 16 && spec_hex_val(s[4]) * 16 + spec_hex_val(s[5]) < 32 {
                spec_unescape_cons(
                    spec_ctrl_char(spec_hex_val(s[4]) * 16 + spec_hex_val(s[5])),
                    spec_unescape(s.skip(6)),
                )
            } else {
                None
            }
        } else {
            None
        }
    } else {
        spec_unescape_cons(s[0], spec_unescape(s.skip(1)))
    }
}

proof fn lemma_ctrl_char_inverse(c: char)
    requires
        0 <= c as int,
        (c as int) < 32,
    ensures
        spec_ctrl_char((c as int) as nat) == c,
{
}

/// Escaping loses nothing: unescaping the escape of any string gives
/// the string back.
pub proof fn lemma_unescape_escape(s: Seq<char>)
    ensures
        spec_unescape(spec_escape(s)) == Some(s),
    decreases s.len(),
{
    if s.len() == 0 {
        assert(spec_unescape(spec_escape(s)) == Some(Seq::<char>::empty()));
        assert(Seq::<char>::empty() =~= s);
    } else {
        let c = s[0];
        let e = spec_escape_char(c);
        let rest = spec_escape(s.skip(1));
        let w = e + rest;
        lemma_unescape_escape(s.skip(1));
        if c == '"' || c == '\\' || c == '\n' || c == '\r' || c == '\t' || c == '\u{8}' || c
            == '\u{c}' {
            assert(w.skip(2) =~= rest);
            assert(spec_unescape(w) == spec_unescape_cons(c, spec_unescape(rest)));
        } else if 0 <= c as int && (c as int) < 32 {
            assert(e.len() == 6);
            assert(w.skip(6) =~= rest);
            let d1 = (c as int / 16) as nat;
            let d2 = (c as int % 16) as nat;
            vstd::arithmetic::div_mod::lemma_fundamental_div_mod(c as int, 16);
            assert(d1 < 2);
            assert(d2 < 16);
            assert(spec_hex_val(spec_hex_digit(d1)) == d1);
            assert(spec_hex_val(spec_hex_digit(d2)) == d2);
            assert(d1 * 16 + d2 == c as int);
            lemma_ctrl_char_inverse(c);
            assert(spec_unescape(w) == spec_unescape_cons(c, spec_unescape(rest)));
        } else {
            assert(w[0] == c && c != '\\');
            assert(w.skip(1) =~= rest);
            assert(spec_unescape(w) == spec_unescape_cons(c, spec_unescape(rest)));
        }
        assert(seq![c] + s.skip(1) =~= s);
    }
}

fn hex_digit_char(d: u32) -> (c: char)
    requires
        d < 16,
    ensures
        c == spec_hex_digit(d as nat),
{
    if d == 0 {
        '0'
    } else if d == 1 {
        '1'
    } else if d == 2 {
        '2'
    } else if d == 3 {
        '3'
    } else if d == 4 {
        '4'
    } else if d == 5 {
        '5'
    } else if d == 6 {
        '6'
    } else if d == 7 {
        '7'
    } else if d == 8 {
        '8'
    } else if d == 9 {
        '9'
    } else if d == 10 {
        'a'
    } else if d == 11 {
        'b'
    } else if d == 12 {
        'c'
    } else if d == 13 {
        'd'
    } else if d == 14 {
        'e'
    } else {
        'f'
    }
}

fn push_escaped_char(out: &mut String, c: char)
    ensures
        final(out)@ == old(out)@ + spec_escape_char(c),
{
    let u = c as u32;
    if c == '"' {
        out.push('\\');
        out.push('"');
    } else if c == '\\' {
        out.push('\\');
        out.push('\\');
    } else if c == '\n' {
        out.push('\\');
        out.push('n');
    } else if c == '\r' {
        out.push('\\');
        out.push('r');
    } else if c == '\t' {
        out.push('\\');
        out.push('t');
    } else if u == 8 {
        out.push('\\');
        out.push('b');
    } else if u == 12 {
        out.push('\\');
        out.push('f');
    } else if u < 32 {
        out.push('\\');
        out.push('u');
        out.push('0');
        out.push('0');
        out.push(hex_digit_char(u / 16));
        out.push(hex_digit_char(u % 16));
    } else {
        out.push(c);
    }
    proof {
        assert(final(out)@ =~= old(out)@ + spec_escape_char(c));
    }
}

/// Escapes a string value for inclusion in a JSON string literal.
pub fn escape_json_string(s: &str) -> (r: String)
    ensures
        r@ == spec_escape(s@),
{
    proof {
        assert(s@.skip(0) =~= s@);
    }
    escape_from(s, 0)
}

fn escape_from(s: &str, i: usize) -> (r: String)
    requires
        i <= s@.len(),
    ensures
        r@ == spec_escape(s@.skip(i as int)),
    decreases s@.len() - i,
{
    let n = s.unicode_len();
    if i == n {
        let r = String::new();
        proof {
            assert(s@.skip(i as int) =~= Seq::<char>::empty());
        }
        r
    } else {
        let c = s.get_char(i);
        let mut out = String::new();
        push_escaped_char(&mut out, c);
        let tail = escape_from(s, i + 1);
        out.append(tail.as_str());
        proof {
            assert(s@.skip(i as int)[0] == s@[i as int]);
            assert(s@.skip(i as int).skip(1) =~= s@.skip(i as int + 1));
        }
        out
    }
}

pub open spec fn spec_key_time() -> Seq<char> {
    seq!['t', 'i', 'm', 'e']
}

pub open spec fn spec_key_user() -> Seq<char> {
    seq!['u', 's', 'e', 'r']
}

pub open spec fn spec_key_distro() -> Seq<char> {
    seq!['d', 'i', 's', 't', 'r', 'o']
}

pub open spec fn spec_key_arch() -> Seq<char> {
    seq!['a', 'r', 'c', 'h']
}

pub open spec fn spec_key_memory() -> Seq<char> {
    seq!['m', 'e', 'm', 'o', 'r', 'y']
}

pub open spec fn spec_key_battery() -> Seq<char> {
    seq!['b', 'a', 't', 't', 'e', 'r', 'y']
}

/// The abstract key/value document of a snapshot: the six schema keys
/// in their fixed order, a suppressed field carrying no value.
pub open spec fn spec_json_entries(v: SnapshotView) -> Seq<(Seq<char>, Option<Seq<char>>)> {
    seq![
        (spec_key_time(), Some(v.time)),
        (spec_key_user(), Some(v.user)),
        (spec_key_distro(), v.distro),
        (spec_key_arch(), v.arch),
        (spec_key_memory(), Some(v.memory)),
        (spec_key_battery(), v.battery),
    ]
}

/// One rendered document member: indentation, the quoted key, a colon,
/// and the quoted escaped value or `null`.
pub open spec fn spec_entry_text(e: (Seq<char>, Option<Seq<char>>)) -> Seq<char> {
    seq![' ', ' ', '"'] + e.0 + seq!['"', ':', ' '] + (match e.1 {
        Some(val) => seq!['"'] + spec_escape(val) + seq!['"'],
        None => seq!['n', 'u', 'l', 'l'],
    })
}

/// The members joined with a comma and newline.
pub open spec fn spec_entries_text(es: Seq<(Seq<char>, Option<Seq<char>>)>) -> Seq<char>
    decreases es.len(),
{
    if es.len() == 0 {
        Seq::empty()
    } else if es.len() == 1 {
        spec_entry_text(es[0])
    } else {
        spec_entry_text(es[0]) + seq![',', '\n'] + spec_entries_text(es.skip(1))
    }
}

/// The whole pretty-printed document.
pub open spec fn spec_json(v: SnapshotView) -> Seq<char> {
    seq!['{', '\n'] + spec_entries_text(spec_json_entries(v)) + seq!['\n', '}']
}

#[verifier::rlimit(100)]
proof fn lemma_entries_text_six(
    e0: (Seq<char>, Option<Seq<char>>),
    e1: (Seq<char>, Option<Seq<char>>),
    e2: (Seq<char>, Option<Seq<char>>),
    e3: (Seq<char>, Option<Seq<char>>),
    e4: (Seq<char>, Option<Seq<char>>),
    e5: (Seq<char>, Option<Seq<char>>),
)
    ensures
        spec_entries_text(seq![e0, e1, e2, e3, e4, e5]) == spec_entry_text(e0) + seq![',', '\n']
            + spec_entry_text(e1) + seq![',', '\n'] + spec_entry_text(e2) + seq![',', '\n']
            + spec_entry_text(e3) + seq![',', '\n'] + spec_entry_text(e4) + seq![',', '\n']
            + spec_entry_text(e5),
{
    let s5 = seq![e5];
    let s4 = seq![e4, e5];
    let s3 = seq![e3, e4, e5];
    let s2 = seq![e2, e3, e4, e5];
    let s1 = seq![e1, e2, e3, e4, e5];
    let s0 = seq![e0, e1, e2, e3, e4, e5];
    assert(s0.skip(1) =~= s1);
    assert(s1.skip(1) =~= s2);
    assert(s2.skip(1) =~= s3);
    assert(s3.skip(1) =~= s4);
    assert(s4.skip(1) =~= s5);
    assert(spec_entries_text(s5) == spec_entry_text(e5));
    assert(spec_entries_text(s4) == spec_entry_text(e4) + seq![',', '\n'] + spec_entries_text(s5));
    assert(spec_entries_text(s3) == spec_entry_text(e3) + seq![',', '\n'] + spec_entries_text(s4));
    assert(spec_entries_text(s2) == spec_entry_text(e2) + seq![',', '\n'] + spec_entries_text(s3));
    assert(spec_entries_text(s1) == spec_entry_text(e1) + seq![',', '\n'] + spec_entries_text(s2));
    assert(spec_entries_text(s0) == spec_entry_text(e0) + seq![',', '\n'] + spec_entries_text(s1));
    assert(spec_entries_text(s0) =~= spec_entry_text(e0) + seq![',', '\n'] + spec_entry_text(e1)
        + seq![',', '\n'] + spec_entry_text(e2) + seq![',', '\n'] + spec_entry_text(e3) + seq![
        ',',
        '\n',
    ] + spec_entry_text(e4) + seq![',', '\n'] + spec_entry_text(e5));
}

fn append_entry(out: &mut String, key: &str, val: Option<&String>, last: bool)
    ensures
        final(out)@ == old(out)@ + spec_entry_text(
            (
                key@,
                match val {
                    Some(v) => Some(v@),
                    None => None,
                },
            ),
        ) + (if last {
            Seq::<char>::empty()
        } else {
            seq![',', '\n']
        }),
{
    out.push(' ');
    out.push(' ');
    out.push('"');
    out.append(key);
    out.push('"');
    out.push(':');
    out.push(' ');
    match val {
        Some(v) => {
            out.push('"');
            let e = escape_json_string(v.as_str());
            out.append(e.as_str());
            out.push('"');
        },
        None => {
            out.push('n');
            out.push('u');
            out.push('l');
            out.push('l');
        },
    }
    if !last {
        out.push(',');
        out.push('\n');
    }
    proof {
        assert(final(out)@ =~= old(out)@ + spec_entry_text(
            (
                key@,
                match val {
                    Some(v) => Some(v@),
                    None => None,
                },
            ),
        ) + (if last {
            Seq::<char>::empty()
        } else {
            seq![',', '\n']
        }));
    }
}

/// Renders the snapshot as the pretty-printed JSON document.
#[verifier::rlimit(60)]
pub fn render_json(info: &SystemSnapshot) -> (s: String)
    ensures
        s@ == spec_json(info@),
{
    proof {
        reveal_strlit("time");
        reveal_strlit("user");
        reveal_strlit("distro");
        reveal_strlit("arch");
        reveal_strlit("memory");
        reveal_strlit("battery");
        lemma_entries_text_six(
            (spec_key_time(), Some(info@.time)),
            (spec_key_user(), Some(info@.user)),
            (spec_key_distro(), info@.distro),
            (spec_key_arch(), info@.arch),
            (spec_key_memory(), Some(info@.memory)),
            (spec_key_battery(), info@.battery),
        );
    }
    let mut s = String::new();
    s.push('{');
    s.push('\n');
    append_entry(&mut s, "time", Some(&info.time), false);
    append_entry(&mut s, "user", Some(&info.user), false);
    append_entry(&mut s, "distro", info.distro.as_ref(), false);
    append_entry(&mut s, "arch", info.arch.as_ref(), false);
    append_entry(&mut s, "memory", Some(&info.memory), false);
    append_entry(&mut s, "battery", info.battery.as_ref(), true);
    s.push('\n');
    s.push('}');
    proof {
        assert(s@ =~= spec_json(info@));
    }
    s
}

/// The label that the human-readable report uses for a schema key.
pub open spec fn spec_label_for(key: Seq<char>) -> Seq<char> {
    if key == spec_key_time() {
        spec_label_time()
    } else if key == spec_key_user() {
        spec_label_user()
    } else if key == spec_key_distro() {
        spec_label_dist()
    } else if key == spec_key_arch() {
        spec_label_krnl()
    } else if key == spec_key_memory() {
        spec_label_memory()
    } else {
        spec_label_battery()
    }
}

/// The report lines that a document's present entries describe: one
/// line per entry that carries a value.
pub open spec fn spec_entry_lines(es: Seq<(Seq<char>, Option<Seq<char>>)>) -> Seq<Seq<char>>
    decreases es.len(),
{
    if es.len() == 0 {
        Seq::empty()
    } else {
        (match es[0].1 {
            Some(val) => seq![spec_line(spec_label_for(es[0].0), val)],
            None => Seq::<Seq<char>>::empty(),
        }) + spec_entry_lines(es.skip(1))
    }
}

/// Schema equivalence: the entries of the JSON document that carry a
/// value correspond one to one, in order, to the lines of the
/// human-readable report for the same snapshot.
pub proof fn lemma_schema_equivalence(v: SnapshotView)
    ensures
        spec_entry_lines(spec_json_entries(v)) == spec_human_lines(v),
{
    let es = spec_json_entries(v);
    let e1 = seq![
        (spec_key_user(), Some(v.user)),
        (spec_key_distro(), v.distro),
        (spec_key_arch(), v.arch),
        (spec_key_memory(), Some(v.memory)),
        (spec_key_battery(), v.battery),
    ];
    let e2 = seq![
        (spec_key_distro(), v.distro),
        (spec_key_arch(), v.arch),
        (spec_key_memory(), Some(v.memory)),
        (spec_key_battery(), v.battery),
    ];
    let e3 = seq![(spec_key_arch(), v.arch), (spec_key_memory(), Some(v.memory)), (spec_key_battery(), v.battery)];
    let e4 = seq![(spec_key_memory(), Some(v.memory)), (spec_key_battery(), v.battery)];
    let e5 = seq![(spec_key_battery(), v.battery)];
    assert(es.skip(1) =~= e1);
    assert(e1.skip(1) =~= e2);
    assert(e2.skip(1) =~= e3);
    assert(e3.skip(1) =~= e4);
    assert(e4.skip(1) =~= e5);
    assert(e5.skip(1) =~= Seq::<(Seq<char>, Option<Seq<char>>)>::empty());
    let lu = seq![spec_line(spec_label_user(), v.user)];
    let ld = match v.distro {
        Some(d) => seq![spec_line(spec_label_dist(), d)],
        None => Seq::<Seq<char>>::empty(),
    };
    let la = match v.arch {
        Some(a) => seq![spec_line(spec_label_krnl(), a)],
        None => Seq::<Seq<char>>::empty(),
    };
    let lm = seq![spec_line(spec_label_memory(), v.memory)];
    let lb = match v.battery {
        Some(b) => seq![spec_line(spec_label_battery(), b)],
        None => Seq::<Seq<char>>::empty(),
    };
    assert(spec_key_user() != spec_key_time());
    assert(spec_key_distro() != spec_key_time() && spec_key_distro() != spec_key_user());
    assert(spec_key_arch() != spec_key_time() && spec_key_arch() != spec_key_user()
        && spec_key_arch() != spec_key_distro());
    assert(spec_key_memory() != spec_key_time() && spec_key_memory() != spec_key_user()
        && spec_key_memory() != spec_key_distro() && spec_key_memory() != spec_key_arch());
    assert(spec_key_battery() != spec_key_time() && spec_key_battery() != spec_key_user()
        && spec_key_battery() != spec_key_distro() && spec_key_battery() != spec_key_arch()
        && spec_key_battery() != spec_key_memory());
    assert(spec_entry_lines(Seq::<(Seq<char>, Option<Seq<char>>)>::empty())
        =~= Seq::<Seq<char>>::empty());
    assert(spec_entry_lines(e5) =~= lb + spec_entry_lines(e5.skip(1)));
    assert(spec_entry_lines(e5) =~= lb);
    assert(spec_entry_lines(e4) =~= lm + spec_entry_lines(e4.skip(1)));
    assert(spec_entry_lines(e4) =~= lm + lb);
    assert(spec_entry_lines(e3) =~= la + (lm + lb));
    assert(spec_entry_lines(e2) =~= ld + (la + (lm + lb)));
    assert(spec_entry_lines(e1) =~= lu + (ld + (la + (lm + lb))));
    assert(spec_entry_lines(es) =~= seq![spec_line(spec_label_time(), v.time)] + (lu + (ld + (la + (
    lm + lb)))));
    assert(spec_entry_lines(es) =~= spec_human_lines(v));
}

/// In minimal mode the document still carries the `distro` and `arch`
/// keys, but both are null.
pub proof fn lemma_minimal_json_nulls(v: SnapshotView)
    requires
        v.distro is None,
        v.arch is None,
    ensures
        spec_json_entries(v)[2].1 is None,
        spec_json_entries(v)[3].1 is None,
{
}

/// With the battery suppressed the `battery` key is null.
pub proof fn lemma_no_battery_json_null(v: SnapshotView)
    requires
        v.battery is None,
    ensures
        spec_json_entries(v)[5].1 is None,
{
}

/// Two snapshots that agree on everything but the time yield documents
/// that differ at most in the `time` entry.
pub proof fn lemma_idempotent_json(v1: SnapshotView, v2: SnapshotView)
    requires
        v1.user == v2.user,
        v1.distro == v2.distro,
        v1.arch == v2.arch,
        v1.memory == v2.memory,
        v1.battery == v2.battery,
    ensures
        spec_json_entries(v1).len() == spec_json_entries(v2).len(),
        spec_json_entries(v1).skip(1) == spec_json_entries(v2).skip(1),
        spec_json_entries(v1)[0].0 == spec_key_time(),
        spec_json_entries(v2)[0].0 == spec_key_time(),
{
    assert(spec_json_entries(v1).skip(1) =~= spec_json_entries(v2).skip(1));
}

/// The JSON document is never empty.
pub proof fn lemma_json_nonempty(v: SnapshotView)
    ensures
        spec_json(v).len() > 0,
{
}

/// Scans a JSON string literal's body (the opening quote already
/// consumed): the raw escaped text up to the closing quote, and what
/// follows the quote.  An escape introducer always takes its next
/// character along, so an escaped quote does not end the scan.
pub open spec fn spec_scan_string(s: Seq<char>) -> Option<(Seq<char>, Seq<char>)>
    decreases s.len(),
{
    if s.len() == 0 {
        None
    } else if s[0] == '"' {
        Some((Seq::empty(), s.skip(1)))
    } else if s[0] == '\\' {
        if s.len() < 2 {
            None
        } else {
            match spec_scan_string(s.skip(2)) {
                Some(p) => Some((seq![s[0], s[1]] + p.0, p.1)),
                None => None,
            }
        }
    } else {
        match spec_scan_string(s.skip(1)) {
            Some(p) => Some((seq![s[0]] + p.0, p.1)),
            None => None,
        }
    }
}

proof fn lemma_scan_one_plain(c: char, s: Seq<char>, t: Seq<char>, r: Seq<char>)
    requires
        c != '"',
        c != '\\',
        spec_scan_string(s) == Some((t, r)),
    ensures
        spec_scan_string(seq![c] + s) == Some((seq![c] + t, r)),
{
    let w = seq![c] + s;
    assert(w[0] == c);
    assert(w.skip(1) =~= s);
}

proof fn lemma_scan_one_pair(c1: char, s: Seq<char>, t: Seq<char>, r: Seq<char>)
    requires
        spec_scan_string(s) == Some((t, r)),
    ensures
        spec_scan_string(seq!['\\', c1] + s) == Some((seq!['\\', c1] + t, r)),
{
    let w = seq!['\\', c1] + s;
    assert(w[0] == '\\');
    assert(w[1] == c1);
    assert(w.len() >= 2);
    assert(w.skip(2) =~= s);
    assert(seq!['\\', c1] + t =~= seq![w[0], w[1]] + t);
}

/// Scanning the escape of a value, a closing quote, and a tail yields
/// exactly the escaped value and the tail.
proof fn lemma_scan_escape(val: Seq<char>, rest: Seq<char>)
    ensures
        spec_scan_string(spec_escape(val) + seq!['"'] + rest) == Some((spec_escape(val), rest)),
    decreases val.len(),
{
    if val.len() == 0 {
        let w = spec_escape(val) + seq!['"'] + rest;
        assert(w =~= seq!['"'] + rest);
        assert(w[0] == '"');
        assert(w.skip(1) =~= rest);
        assert(spec_escape(val) =~= Seq::<char>::empty());
    } else {
        let c = val[0];
        let e = spec_escape_char(c);
        let tail = spec_escape(val.skip(1)) + seq!['"'] + rest;
        lemma_scan_escape(val.skip(1), rest);
        if c == '"' || c == '\\' || c == '\n' || c == '\r' || c == '\t' || c == '\u{8}' || c
            == '\u{c}' {
            lemma_scan_one_pair(e[1], tail, spec_escape(val.skip(1)), rest);
            assert(e =~= seq!['\\', e[1]]);
            assert(e + tail =~= spec_escape(val) + seq!['"'] + rest);
            assert(seq!['\\', e[1]] + spec_escape(val.skip(1)) =~= spec_escape(val));
        } else if 0 <= c as int && (c as int) < 32 {
            let h1 = spec_hex_digit((c as int / 16) as nat);
            let h2 = spec_hex_digit((c as int % 16) as nat);
            assert(h1 != '"' && h1 != '\\');
            assert(h2 != '"' && h2 != '\\');
            lemma_scan_one_plain(h2, tail, spec_escape(val.skip(1)), rest);
            lemma_scan_one_plain(h1, seq![h2] + tail, seq![h2] + spec_escape(val.skip(1)), rest);
            lemma_scan_one_plain(
                '0',
                seq![h1] + (seq![h2] + tail),
                seq![h1] + (seq![h2] + spec_escape(val.skip(1))),
                rest,
            );
            lemma_scan_one_plain(
                '0',
                seq!['0'] + (seq![h1] + (seq![h2] + tail)),
                seq!['0'] + (seq![h1] + (seq![h2] + spec_escape(val.skip(1)))),
                rest,
            );
            lemma_scan_one_pair(
                'u',
                seq!['0'] + (seq!['0'] + (seq![h1] + (seq![h2] + tail))),
                seq!['0'] + (seq!['0'] + (seq![h1] + (seq![h2] + spec_escape(val.skip(1))))),
                rest,
            );
            assert(seq!['\\', 'u'] + (seq!['0'] + (seq!['0'] + (seq![h1] + (seq![h2] + tail))))
                =~= spec_escape(val) + seq!['"'] + rest);
            assert(seq!['\\', 'u'] + (seq!['0'] + (seq!['0'] + (seq![h1] + (seq![h2]
                + spec_escape(val.skip(1)))))) =~= spec_escape(val));
        } else {
            assert(e =~= seq![c]);
            lemma_scan_one_plain(c, tail, spec_escape(val.skip(1)), rest);
            assert(seq![c] + tail =~= spec_escape(val) + seq!['"'] + rest);
            assert(seq![c] + spec_escape(val.skip(1)) =~= spec_escape(val));
        }
    }
}

/// Parses one member value: `null`, or a string literal whose body
/// unescapes; yields the value and what follows it.
pub open spec fn spec_parse_value(s: Seq<char>) -> Option<(Option<Seq<char>>, Seq<char>)> {
    if s.len() >= 4 && s.take(4) == seq!['n', 'u', 'l', 'l'] {
        Some((None, s.skip(4)))
    } else if s.len() >= 1 && s[0] == '"' {
        match spec_scan_string(s.skip(1)) {
            Some(p) => match spec_unescape(p.0) {
                Some(val) => Some((Some(val), p.1)),
                None => None,
            },
            None => None,
        }
    } else {
        None
    }
}

/// Parses one document member: the fixed indentation, the quoted key,
/// the separator, and the value.
pub open spec fn spec_parse_entry(s: Seq<char>, key: Seq<char>) -> Option<
    (Option<Seq<char>>, Seq<char>),
> {
    let prefix = seq![' ', ' ', '"'] + key + seq!['"', ':', ' '];
    if s.len() >= prefix.len() && s.take(prefix.len() as int) == prefix {
        spec_parse_value(s.skip(prefix.len() as int))
    } else {
        None
    }
}

/// Parses the whole pretty-printed document back into a snapshot: the
/// six schema keys in their fixed order, `time`, `user` and `memory`
/// required to carry a string.
pub open spec fn spec_parse_report(s: Seq<char>) -> Option<SnapshotView> {
    if s.len() >= 2 && s.take(2) == seq!['{', '\n'] {
        match spec_parse_entry(s.skip(2), spec_key_time()) {
            Some((Some(time), r1)) => match spec_parse_sep(r1) {
                Some(r1s) => match spec_parse_entry(r1s, spec_key_user()) {
                    Some((Some(user), r2)) => match spec_parse_sep(r2) {
                        Some(r2s) => match spec_parse_entry(r2s, spec_key_distro()) {
                            Some((distro, r3)) => match spec_parse_sep(r3) {
                                Some(r3s) => match spec_parse_entry(r3s, spec_key_arch()) {
                                    Some((arch, r4)) => match spec_parse_sep(r4) {
                                        Some(r4s) => match spec_parse_entry(
                                            r4s,
                                            spec_key_memory(),
                                        ) {
                                            Some((Some(memory), r5)) => match spec_parse_sep(r5) {
                                                Some(r5s) => match spec_parse_entry(
                                                    r5s,
                                                    spec_key_battery(),
                                                ) {
                                                    Some((battery, r6)) => if r6 == seq![
                                                        '\n',
                                                        '}',
                                                    ] {
                                                        Some(
                                                            SnapshotView {
                                                                time,
                                                                user,
                                                                distro,
                                                                arch,
                                                                memory,
                                                                battery,
                                                            },
                                                        )
                                                    } else {
                                                        None
                                                    },
                                                    None => None,
                                                },
                                                None => None,
                                            },
                                            _ => None,
                                        },
                                        None => None,
                                    },
                                    None => None,
                                },
                                None => None,
                            },
                            None => None,
                        },
                        None => None,
                    },
                    _ => None,
                },
                None => None,
            },
            _ => None,
        }
    } else {
        None
    }
}

/// Consumes the comma and newline between two members.
pub open spec fn spec_parse_sep(s: Seq<char>) -> Option<Seq<char>> {
    if s.len() >= 2 && s.take(2) == seq![',', '\n'] {
        Some(s.skip(2))
    } else {
        None
    }
}

/// One member followed by a tail parses to its value and the tail.
proof fn lemma_parse_entry_round(key: Seq<char>, val: Option<Seq<char>>, rest: Seq<char>)
    ensures
        spec_parse_entry(spec_entry_text((key, val)) + rest, key) == Some((val, rest)),
{
    let w = spec_entry_text((key, val)) + rest;
    let prefix = seq![' ', ' ', '"'] + key + seq!['"', ':', ' '];
    assert(w.take(prefix.len() as int) =~= prefix);
    match val {
        None => {
            let after = w.skip(prefix.len() as int);
            assert(after =~= seq!['n', 'u', 'l', 'l'] + rest);
            assert(after.take(4) =~= seq!['n', 'u', 'l', 'l']);
            assert(after.skip(4) =~= rest);
        },
        Some(v) => {
            let after = w.skip(prefix.len() as int);
            assert(after =~= seq!['"'] + (spec_escape(v) + seq!['"'] + rest));
            assert(after[0] == '"');
            if after.len() >= 4 && after.take(4) == seq!['n', 'u', 'l', 'l'] {
                assert(after.take(4)[0] == 'n');
                assert(false);
            }
            assert(after.skip(1) =~= spec_escape(v) + seq!['"'] + rest);
            lemma_scan_escape(v, rest);
            lemma_unescape_escape(v);
        },
    }
}

/// The separator between members consumes exactly its two characters.
proof fn lemma_sep(b: Seq<char>)
    ensures
        spec_parse_sep(seq![',', '\n'] + b) == Some(b),
{
    let w = seq![',', '\n'] + b;
    assert(w.take(2) =~= seq![',', '\n']);
    assert(w.skip(2) =~= b);
}

/// Round trip: parsing the rendered document gives back exactly the
/// snapshot it was rendered from, null standing for each suppressed
/// field.
#[verifier::rlimit(100)]
pub proof fn lemma_parse_render_round_trip(v: SnapshotView)
    ensures
        spec_parse_report(spec_json(v)) == Some(v),
{
    let t0 = spec_entry_text((spec_key_time(), Some(v.time)));
    let t1 = spec_entry_text((spec_key_user(), Some(v.user)));
    let t2 = spec_entry_text((spec_key_distro(), v.distro));
    let t3 = spec_entry_text((spec_key_arch(), v.arch));
    let t4 = spec_entry_text((spec_key_memory(), Some(v.memory)));
    let t5 = spec_entry_text((spec_key_battery(), v.battery));
    let sep = seq![',', '\n'];
    let close = seq!['\n', '}'];
    lemma_entries_text_six(
        (spec_key_time(), Some(v.time)),
        (spec_key_user(), Some(v.user)),
        (spec_key_distro(), v.distro),
        (spec_key_arch(), v.arch),
        (spec_key_memory(), Some(v.memory)),
        (spec_key_battery(), v.battery),
    );
    let s = spec_json(v);
    let r5 = sep + (t5 + close);
    let r4 = sep + (t4 + r5);
    let r3 = sep + (t3 + r4);
    let r2 = sep + (t2 + r3);
    let r1 = sep + (t1 + r2);
    assert(s.take(2) =~= seq!['{', '\n']);
    assert(s.skip(2) =~= t0 + r1);
    lemma_parse_entry_round(spec_key_time(), Some(v.time), r1);
    lemma_sep(t1 + r2);
    lemma_parse_entry_round(spec_key_user(), Some(v.user), r2);
    lemma_sep(t2 + r3);
    lemma_parse_entry_round(spec_key_distro(), v.distro, r3);
    lemma_sep(t3 + r4);
    lemma_parse_entry_round(spec_key_arch(), v.arch, r4);
    lemma_sep(t4 + r5);
    lemma_parse_entry_round(spec_key_memory(), Some(v.memory), r5);
    lemma_sep(t5 + close);
    lemma_parse_entry_round(spec_key_battery(), v.battery, close);
    assert(spec_parse_report(s) == Some(
        SnapshotView {
            time: v.time,
            user: v.user,
            distro: v.distro,
            arch: v.arch,
            memory: v.memory,
            battery: v.battery,
        },
    ));
    assert(SnapshotView {
        time: v.time,
        user: v.user,
        distro: v.distro,
        arch: v.arch,
        memory: v.memory,
        battery: v.battery,
    } == v);
}

fn hex_val_of(c: char) -> (r: u32)
    ensures
        r == spec_hex_val(c),
{
    if c == '0' {
        0
    } else if c == '1' {
        1
    } else if c == '2' {
        2
    } else if c == '3' {
        3
    } else if c == '4' {
        4
    } else if c == '5' {
        5
    } else if c == '6' {
        6
    } else if c == '7' {
        7
    } else if c == '8' {
        8
    } else if c == '9' {
        9
    } else if c == 'a' {
        10
    } else if c == 'b' {
        11
    } else if c == 'c' {
        12
    } else if c == 'd' {
        13
    } else if c == 'e' {
        14
    } else if c == 'f' {
        15
    } else {
        16
    }
}

fn ctrl_char_of(n: u32) -> (c: char)
    requires
        n < 32,
    ensures
        c == spec_ctrl_char(n as nat),
{
    if n == 0 {
        '\u{0}'
    } else if n == 1 {
        '\u{1}'
    } else if n == 2 {
        '\u{2}'
    } else if n == 3 {
        '\u{3}'
    } else if n == 4 {
        '\u{4}'
    } else if n == 5 {
        '\u{5}'
    } else if n == 6 {
        '\u{6}'
    } else if n == 7 {
        '\u{7}'
    } else if n == 8 {
        '\u{8}'
    } else if n == 9 {
        '\u{9}'
    } else if n == 10 {
        '\u{a}'
    } else if n == 11 {
        '\u{b}'
    } else if n == 12 {
        '\u{c}'
    } else if n == 13 {
        '\u{d}'
    } else if n == 14 {
        '\u{e}'
    } else if n == 15 {
        '\u{f}'
    } else if n == 16 {
        '\u{10}'
    } else if n == 17 {
        '\u{11}'
    } else if n == 18 {
        '\u{12}'
    } else if n == 19 {
        '\u{13}'
    } else if n == 20 {
        '\u{14}'
    } else if n == 21 {
        '\u{15}'
    } else if n == 22 {
        '\u{16}'
    } else if n == 23 {
        '\u{17}'
    } else if n == 24 {
        '\u{18}'
    } else if n == 25 {
        '\u{19}'
    } else if n == 26 {
        '\u{1a}'
    } else if n == 27 {
        '\u{1b}'
    } else if n == 28 {
        '\u{1c}'
    } else if n == 29 {
        '\u{1d}'
    } else if n == 30 {
        '\u{1e}'
    } else {
        '\u{1f}'
    }
}

/// Undoes `escape_json_string`; `None` on a malformed escape.
pub fn unescape_json_string(s: &str) -> (r: Option<String>)
    ensures
        match r {
            Some(t) => spec_unescape(s@) == Some(t@),
            None => spec_unescape(s@) is None,
        },
    decreases s@.len(),
{
    let n = s.unicode_len();
    if n == 0 {
        let t = String::new();
        proof {
            assert(spec_unescape(s@) == Some(Seq::<char>::empty()));
        }
        Some(t)
    } else {
        let c0 = s.get_char(0);
        if c0 == '\\' {
            if n < 2 {
                return None;
            }
            let c1 = s.get_char(1);
            let decoded: char;
            let consumed: usize;
            if c1 == '"' {
                decoded = '"';
                consumed = 2;
            } else if c1 == '\\' {
                decoded = '\\';
                consumed = 2;
            } else if c1 == 'n' {
                decoded = '\n';
                consumed = 2;
            } else if c1 == 'r' {
                decoded = '\r';
                consumed = 2;
            } else if c1 == 't' {
                decoded = '\t';
                consumed = 2;
            } else if c1 == 'b' {
                decoded = '\u{8}';
                consumed = 2;
            } else if c1 == 'f' {
                decoded = '\u{c}';
                consumed = 2;
            } else if c1 == 'u' {
                if n < 6 {
                    return None;
                }
                if !(s.get_char(2) == '0' && s.get_char(3) == '0') {
                    return None;
                }
                let h1 = hex_val_of(s.get_char(4));
                let h2 = hex_val_of(s.get_char(5));
                if h1 >= 16 || h2 >= 16 || h1 * 16 + h2 >= 32 {
                    return None;
                }
                decoded = ctrl_char_of(h1 * 16 + h2);
                consumed = 6;
            } else {
                return None;
            }
            let rest = s.substring_char(consumed, n);
            proof {
                assert(rest@ =~= s@.skip(consumed as int));
            }
            match unescape_json_string(rest) {
                Some(t) => {
                    let mut out = String::new();
                    out.push(decoded);
                    out.append(t.as_str());
                    proof {
                        assert(out@ =~= seq![decoded] + t@);
                    }
                    Some(out)
                },
                None => None,
            }
        } else {
            let rest = s.substring_char(1, n);
            proof {
                assert(rest@ =~= s@.skip(1));
            }
            match unescape_json_string(rest) {
                Some(t) => {
                    let mut out = String::new();
                    out.push(c0);
                    out.append(t.as_str());
                    proof {
                        assert(out@ =~= seq![c0] + t@);
                    }
                    Some(out)
                },
                None => None,
            }
        }
    }
}

/// Scans a string literal's body as `spec_scan_string` does: the raw
/// escaped text before the closing quote, and what follows it.
fn scan_string<'a>(s: &'a str) -> (r: Option<(String, &'a str)>)
    ensures
        match r {
            Some(p) => spec_scan_string(s@) == Some((p.0@, p.1@)),
            None => spec_scan_string(s@) is None,
        },
    decreases s@.len(),
{
    let n = s.unicode_len();
    if n == 0 {
        None
    } else {
        let c0 = s.get_char(0);
        if c0 == '"' {
            let rest = s.substring_char(1, n);
            proof {
                assert(rest@ =~= s@.skip(1));
            }
            Some((String::new(), rest))
        } else if c0 == '\\' {
            if n < 2 {
                return None;
            }
            let c1 = s.get_char(1);
            let tail = s.substring_char(2, n);
            proof {
                assert(tail@ =~= s@.skip(2));
            }
            match scan_string(tail) {
                Some((t, rest)) => {
                    let mut out = String::new();
                    out.push(c0);
                    out.push(c1);
                    out.append(t.as_str());
                    proof {
                        assert(out@ =~= seq![s@[0], s@[1]] + t@);
                    }
                    Some((out, rest))
                },
                None => None,
            }
        } else {
            let tail = s.substring_char(1, n);
            proof {
                assert(tail@ =~= s@.skip(1));
            }
            match scan_string(tail) {
                Some((t, rest)) => {
                    let mut out = String::new();
                    out.push(c0);
                    out.append(t.as_str());
                    proof {
                        assert(out@ =~= seq![s@[0]] + t@);
                    }
                    Some((out, rest))
                },
                None => None,
            }
        }
    }
}

/// Parses one member value as `spec_parse_value` does.
fn parse_value<'a>(s: &'a str) -> (r: Option<(Option<String>, &'a str)>)
    ensures
        match r {
            Some(p) => spec_parse_value(s@) == Some(
                (
                    match p.0 {
                        Some(t) => Some(t@),
                        None => None,
                    },
                    p.1@,
                ),
            ),
            None => spec_parse_value(s@) is None,
        },
{
    proof {
        reveal_strlit("null");
        assert("null"@ =~= seq!['n', 'u', 'l', 'l']);
    }
    let n = s.unicode_len();
    if n >= 4 {
        let head = s.substring_char(0, 4);
        if str_eq(head, "null") {
            let rest = s.substring_char(4, n);
            proof {
                assert(head@ =~= s@.take(4));
                assert(rest@ =~= s@.skip(4));
            }
            return Some((None, rest));
        }
        proof {
            assert(head@ =~= s@.take(4));
        }
    }
    if n >= 1 && s.get_char(0) == '"' {
        let body = s.substring_char(1, n);
        proof {
            assert(body@ =~= s@.skip(1));
        }
        match scan_string(body) {
            Some((raw, rest)) => match unescape_json_string(raw.as_str()) {
                Some(val) => Some((Some(val), rest)),
                None => None,
            },
            None => None,
        }
    } else {
        None
    }
}

/// Parses one document member as `spec_parse_entry` does.
fn parse_entry<'a>(s: &'a str, key: &str) -> (r: Option<(Option<String>, &'a str)>)
    ensures
        match r {
            Some(p) => spec_parse_entry(s@, key@) == Some(
                (
                    match p.0 {
                        Some(t) => Some(t@),
                        None => None,
                    },
                    p.1@,
                ),
            ),
            None => spec_parse_entry(s@, key@) is None,
        },
{
    proof {
        reveal_strlit("  \"");
        reveal_strlit("\": ");
        assert("  \""@ =~= seq![' ', ' ', '"']);
        assert("\": "@ =~= seq!['"', ':', ' ']);
    }
    let mut prefix = "  \"".to_owned();
    prefix.append(key);
    prefix.append("\": ");
    let ghost spec_prefix = seq![' ', ' ', '"'] + key@ + seq!['"', ':', ' '];
    proof {
        assert(prefix@ =~= spec_prefix);
    }
    let plen = prefix.as_str().unicode_len();
    let n = s.unicode_len();
    if n < plen {
        return None;
    }
    let head = s.substring_char(0, plen);
    proof {
        assert(head@ =~= s@.take(plen as int));
    }
    if str_eq(head, prefix.as_str()) {
        let after = s.substring_char(plen, n);
        proof {
            assert(after@ =~= s@.skip(plen as int));
        }
        parse_value(after)
    } else {
        None
    }
}

/// Consumes the separator between two members as `spec_parse_sep`
/// does.
fn parse_sep<'a>(s: &'a str) -> (r: Option<&'a str>)
    ensures
        match r {
            Some(rest) => spec_parse_sep(s@) == Some(rest@),
            None => spec_parse_sep(s@) is None,
        },
{
    let n = s.unicode_len();
    if n >= 2 && s.get_char(0) == ',' && s.get_char(1) == '\n' {
        let rest = s.substring_char(2, n);
        proof {
            assert(s@.take(2) =~= seq![',', '\n']);
            assert(rest@ =~= s@.skip(2));
        }
        Some(rest)
    } else {
        proof {
            if n >= 2 {
                if s@.take(2) == seq![',', '\n'] {
                    assert(s@.take(2)[0] == s@[0]);
                    assert(s@.take(2)[1] == s@[1]);
                }
            }
        }
        None
    }
}

/// Parses a pretty-printed document back into a snapshot, exactly as
/// `spec_parse_report` reads it; `None` on anything else.
#[verifier::rlimit(100)]
pub fn parse_report(s: &str) -> (r: Option<SystemSnapshot>)
    ensures
        match r {
            Some(info) => spec_parse_report(s@) == Some(info@),
            None => spec_parse_report(s@) is None,
        },
{
    proof {
        reveal_strlit("time");
        reveal_strlit("user");
        reveal_strlit("distro");
        reveal_strlit("arch");
        reveal_strlit("memory");
        reveal_strlit("battery");
        assert("time"@ =~= spec_key_time());
        assert("user"@ =~= spec_key_user());
        assert("distro"@ =~= spec_key_distro());
        assert("arch"@ =~= spec_key_arch());
        assert("memory"@ =~= spec_key_memory());
        assert("battery"@ =~= spec_key_battery());
    }
    let n = s.unicode_len();
    if n < 2 || !(s.get_char(0) == '{' && s.get_char(1) == '\n') {
        proof {
            if n >= 2 && s@.take(2) == seq!['{', '\n'] {
                assert(s@.take(2)[0] == s@[0]);
                assert(s@.take(2)[1] == s@[1]);
            }
        }
        return None;
    }
    proof {
        assert(s@.take(2) =~= seq!['{', '\n']);
    }
    let r0 = s.substring_char(2, n);
    proof {
        assert(r0@ =~= s@.skip(2));
    }
    let (time_v, r1) = match parse_entry(r0, "time") {
        Some(p) => p,
        None => {
            return None;
        },
    };
    let time = match time_v {
        Some(t) => t,
        None => {
            return None;
        },
    };
    let r1s = match parse_sep(r1) {
        Some(x) => x,
        None => {
            return None;
        },
    };
    let (user_v, r2) = match parse_entry(r1s, "user") {
        Some(p) => p,
        None => {
            return None;
        },
    };
    let user = match user_v {
        Some(t) => t,
        None => {
            return None;
        },
    };
    let r2s = match parse_sep(r2) {
        Some(x) => x,
        None => {
            return None;
        },
    };
    let (distro, r3) = match parse_entry(r2s, "distro") {
        Some(p) => p,
        None => {
            return None;
        },
    };
    let r3s = match parse_sep(r3) {
        Some(x) => x,
        None => {
            return None;
        },
    };
    let (arch, r4) = match parse_entry(r3s, "arch") {
        Some(p) => p,
        None => {
            return None;
        },
    };
    let r4s = match parse_sep(r4) {
        Some(x) => x,
        None => {
            return None;
        },
    };
    let (memory_v, r5) = match parse_entry(r4s, "memory") {
        Some(p) => p,
        None => {
            return None;
        },
    };
    let memory = match memory_v {
        Some(t) => t,
        None => {
            return None;
        },
    };
    let r5s = match parse_sep(r5) {
        Some(x) => x,
        None => {
            return None;
        },
    };
    let (battery, r6) = match parse_entry(r5s, "battery") {
        Some(p) => p,
        None => {
            return None;
        },
    };
    proof {
        reveal_strlit("\n}");
        assert("\n}"@ =~= seq!['\n', '}']);
    }
    if !str_eq(r6, "\n}") {
        return None;
    }
    let info = SystemSnapshot { time, user, distro, arch, memory, battery };
    proof {
        assert(spec_parse_report(s@) == Some(info@));
    }
    Some(info)
}

} // verus!
