//! Argument parsing: the command-line tokens (without the program
//! name) become an immutable configuration record.
//!
//! Recognized are the long flags `--color-strip`, `--no-battery`,
//! `--json` and `--minimal`, their short forms `-c`, `-b`, `-j` and
//! `-m`, and clusters of short forms such as `-cb`.  Repeating a flag
//! is harmless.  The first token that fits none of these rejects the
//! whole invocation: a flag-shaped token as an unknown flag, anything
//! else as an unexpected argument; nothing may be collected or printed
//! after that.

use vstd::prelude::*;
use crate::text::str_eq;

verus! {

/// The configuration produced by a successful parse; every flag
/// defaults to off.
#[derive(Clone, Copy, PartialEq, Eq, Structural, Debug)]
pub struct Config {
    pub color_strip: bool,
    pub no_battery: bool,
    pub json: bool,
    pub minimal: bool,
}

pub open spec fn spec_default_config() -> Config {
    Config { color_strip: false, no_battery: false, json: false, minimal: false }
}

impl Default for Config {
    fn default() -> (c: Config)
        ensures
            c == spec_default_config(),
    {
        Config { color_strip: false, no_battery: false, json: false, minimal: false }
    }
}

/// A rejected invocation, carrying the offending token.
#[derive(Debug)]
pub enum ArgError {
    UnknownFlag(String),
    UnexpectedArgument(String),
}

/// What parsing decides: either a configuration, or the first
/// offending token, split by its shape.
#[verifier::ext_equal]
pub enum ArgOutcome {
    Accepted(Config),
    RejectedFlag(Seq<char>),
    RejectedArg(Seq<char>),
}

/// The characters allowed after `-` in a short-flag cluster.
pub open spec fn spec_flag_char(c: char) -> bool {
    c == 'c' || c == 'b' || c == 'j' || c == 'm'
}

pub open spec fn spec_set_flag(cfg: Config, c: char) -> Config {
    if c == 'c' {
        Config { color_strip: true, ..cfg }
    } else if c == 'b' {
        Config { no_battery: true, ..cfg }
    } else if c == 'j' {
        Config { json: true, ..cfg }
    } else {
        Config { minimal: true, ..cfg }
    }
}

/// A short-flag cluster: `-` followed by one or more flag characters.
pub open spec fn spec_is_short_cluster(t: Seq<char>) -> bool {
    t.len() >= 2 && t[0] == '-' && t[1] != '-' && (forall|i: int|
        1 <= i < t.len() ==> spec_flag_char(#[trigger] t[i]))
}

/// A token that looks like a flag at all (leading `-` and something
/// after it); decides which rejection an unrecognized token gets.
pub open spec fn spec_flag_shaped(t: Seq<char>) -> bool {
    t.len() >= 2 && t[0] == '-'
}

pub open spec fn spec_apply_short(cfg: Config, t: Seq<char>, i: int) -> Config
    decreases t.len() - i,
{
    if i < 1 || i >= t.len() {
        cfg
    } else {
        spec_apply_short(spec_set_flag(cfg, t[i]), t, i + 1)
    }
}

pub open spec fn spec_parse_from(tokens: Seq<Seq<char>>, i: int, cfg: Config) -> ArgOutcome
    decreases tokens.len() - i,
{
    if i < 0 || i >= tokens.len() {
        ArgOutcome::Accepted(cfg)
    } else {
        let t = tokens[i];
        if t == "--color-strip"@ {
            spec_parse_from(tokens, i + 1, Config { color_strip: true, ..cfg })
        } else if t == "--no-battery"@ {
            spec_parse_from(tokens, i + 1, Config { no_battery: true, ..cfg })
        } else if t == "--json"@ {
            spec_parse_from(tokens, i + 1, Config { json: true, ..cfg })
        } else if t == "--minimal"@ {
            spec_parse_from(tokens, i + 1, Config { minimal: true, ..cfg })
        } else if spec_is_short_cluster(t) {
            spec_parse_from(tokens, i + 1, spec_apply_short(cfg, t, 1))
        } else if spec_flag_shaped(t) {
            ArgOutcome::RejectedFlag(t)
        } else {
            ArgOutcome::RejectedArg(t)
        }
    }
}

/// The outcome of parsing a whole token list, starting from the
/// default configuration.
pub open spec fn spec_parse_args(tokens: Seq<Seq<char>>) -> ArgOutcome {
    spec_parse_from(tokens, 0, spec_default_config())
}

fn is_short_cluster(t: &str) -> (r: bool)
    ensures
        r == spec_is_short_cluster(t@),
{
    let n = t.unicode_len();
    if n < 2 {
        return false;
    }
    if t.get_char(0) != '-' {
        return false;
    }
    if t.get_char(1) == '-' {
        return false;
    }
    let mut i: usize = 1;
    while i < n
        invariant
            1 <= i <= n,
            n == t@.len(),
            n >= 2,
            t@[0] == '-',
            t@[1] != '-',
            forall|j: int| 1 <= j < i ==> spec_flag_char(#[trigger] t@[j]),
        decreases n - i,
    {
        let c = t.get_char(i);
        if !(c == 'c' || c == 'b' || c == 'j' || c == 'm') {
            return false;
        }
        i += 1;
    }
    true
}

fn flag_shaped(t: &str) -> (r: bool)
    ensures
        r == spec_flag_shaped(t@),
{
    t.unicode_len() >= 2 && t.get_char(0) == '-'
}

fn apply_short(cfg: Config, t: &str) -> (r: Config)
    ensures
        r == spec_apply_short(cfg, t@, 1),
{
    let n = t.unicode_len();
    let mut cur = cfg;
    let mut i: usize = 1;
    if n < 1 {
        return cur;
    }
    while i < n
        invariant
            1 <= i <= n,
            n == t@.len(),
            spec_apply_short(cfg, t@, 1) == spec_apply_short(cur, t@, i as int),
        decreases n - i,
    {
        let c = t.get_char(i);
        cur = if c == 'c' {
            Config { color_strip: true, ..cur }
        } else if c == 'b' {
            Config { no_battery: true, ..cur }
        } else if c == 'j' {
            Config { json: true, ..cur }
        } else {
            Config { minimal: true, ..cur }
        };
        i += 1;
    }
    cur
}

/// Parses the command-line tokens (the program name excluded).
pub fn parse_args(args: &Vec<String>) -> (r: Result<Config, ArgError>)
    ensures
        match r {
            Ok(cfg) => spec_parse_args(args.deep_view()) == ArgOutcome::Accepted(cfg),
            Err(ArgError::UnknownFlag(t)) => spec_parse_args(args.deep_view())
                == ArgOutcome::RejectedFlag(t@),
            Err(ArgError::UnexpectedArgument(t)) => spec_parse_args(args.deep_view())
                == ArgOutcome::RejectedArg(t@),
        },
{
    let ghost tokens = args.deep_view();
    let mut cfg = Config::default();
    let mut i: usize = 0;
    while i < args.len()
        invariant
            0 <= i <= args.len(),
            tokens == args.deep_view(),
            tokens.len() == args.len(),
            spec_parse_args(tokens) == spec_parse_from(tokens, i as int, cfg),
        decreases args.len() - i,
    {
        let t = &args[i];
        proof {
            assert(tokens[i as int] == t@);
        }
        if str_eq(t.as_str(), "--color-strip") {
            cfg = Config { color_strip: true, ..cfg };
        } else if str_eq(t.as_str(), "--no-battery") {
            cfg = Config { no_battery: true, ..cfg };
        } else if str_eq(t.as_str(), "--json") {
            cfg = Config { json: true, ..cfg };
        } else if str_eq(t.as_str(), "--minimal") {
            cfg = Config { minimal: true, ..cfg };
        } else if is_short_cluster(t.as_str()) {
            cfg = apply_short(cfg, t.as_str());
        } else if flag_shaped(t.as_str()) {
            return Err(ArgError::UnknownFlag(t.clone()));
        } else {
            return Err(ArgError::UnexpectedArgument(t.clone()));
        }
        i += 1;
    }
    Ok(cfg)
}

/// A short usage message for the error stream.
pub fn usage_message() -> (s: String)
    ensures
        s@.len() > 0,
{
    let s = "usage: smplfetch [-c | --color-strip] [-b | --no-battery] [-j | --json] [-m | --minimal]".to_owned();
    proof {
        reveal_strlit(
            "usage: smplfetch [-c | --color-strip] [-b | --no-battery] [-j | --json] [-m | --minimal]",
        );
    }
    s
}

} // verus!
