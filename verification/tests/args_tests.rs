use smplfetch::args::{parse_args, ArgError, Config};

fn toks(xs: &[&str]) -> Vec<String> {
    xs.iter().map(|s| s.to_string()).collect()
}

#[test]
fn no_args_gives_defaults() {
    let cfg = parse_args(&toks(&[])).unwrap();
    assert_eq!(
        cfg,
        Config { color_strip: false, no_battery: false, json: false, minimal: false }
    );
}

#[test]
fn long_flags_set_their_fields() {
    let cfg = parse_args(&toks(&["--color-strip"])).unwrap();
    assert!(cfg.color_strip && !cfg.no_battery && !cfg.json && !cfg.minimal);
    let cfg = parse_args(&toks(&["--no-battery"])).unwrap();
    assert!(!cfg.color_strip && cfg.no_battery && !cfg.json && !cfg.minimal);
    let cfg = parse_args(&toks(&["--json"])).unwrap();
    assert!(cfg.json);
    let cfg = parse_args(&toks(&["--minimal"])).unwrap();
    assert!(cfg.minimal);
}

#[test]
fn short_flags_set_their_fields() {
    let cfg = parse_args(&toks(&["-c", "-b", "-j", "-m"])).unwrap();
    assert!(cfg.color_strip && cfg.no_battery && cfg.json && cfg.minimal);
}

#[test]
fn short_cluster_sets_all_flags() {
    let cfg = parse_args(&toks(&["-cb"])).unwrap();
    assert!(cfg.color_strip && cfg.no_battery && !cfg.json && !cfg.minimal);
    let cfg = parse_args(&toks(&["-mjbc"])).unwrap();
    assert!(cfg.color_strip && cfg.no_battery && cfg.json && cfg.minimal);
}

#[test]
fn repeated_flags_are_harmless() {
    let cfg = parse_args(&toks(&["--json", "--json", "-j"])).unwrap();
    assert!(cfg.json && !cfg.minimal);
}

#[test]
fn all_sixteen_combinations_parse() {
    for bits in 0u32..16 {
        let mut v: Vec<String> = Vec::new();
        if bits & 1 != 0 {
            v.push("--color-strip".to_string());
        }
        if bits & 2 != 0 {
            v.push("--no-battery".to_string());
        }
        if bits & 4 != 0 {
            v.push("--json".to_string());
        }
        if bits & 8 != 0 {
            v.push("--minimal".to_string());
        }
        let cfg = parse_args(&v).unwrap();
        assert_eq!(cfg.color_strip, bits & 1 != 0);
        assert_eq!(cfg.no_battery, bits & 2 != 0);
        assert_eq!(cfg.json, bits & 4 != 0);
        assert_eq!(cfg.minimal, bits & 8 != 0);
    }
}

#[test]
fn unknown_long_flag_is_rejected() {
    match parse_args(&toks(&["--bogus"])) {
        Err(ArgError::UnknownFlag(t)) => assert_eq!(t, "--bogus"),
        other => panic!("expected an unknown-flag rejection, got {:?}", other),
    }
}

#[test]
fn unknown_short_flag_is_rejected() {
    match parse_args(&toks(&["-cx"])) {
        Err(ArgError::UnknownFlag(t)) => assert_eq!(t, "-cx"),
        other => panic!("expected an unknown-flag rejection, got {:?}", other),
    }
}

#[test]
fn positional_argument_is_rejected() {
    match parse_args(&toks(&["report"])) {
        Err(ArgError::UnexpectedArgument(t)) => assert_eq!(t, "report"),
        other => panic!("expected an unexpected-argument rejection, got {:?}", other),
    }
}

#[test]
fn lone_dash_is_rejected() {
    assert!(matches!(
        parse_args(&toks(&["-"])),
        Err(ArgError::UnexpectedArgument(_))
    ));
}

#[test]
fn first_bad_token_wins() {
    match parse_args(&toks(&["--json", "--bogus", "oops"])) {
        Err(ArgError::UnknownFlag(t)) => assert_eq!(t, "--bogus"),
        other => panic!("expected the flag rejection first, got {:?}", other),
    }
}

#[test]
fn usage_message_is_nonempty() {
    assert!(!smplfetch::args::usage_message().is_empty());
}
