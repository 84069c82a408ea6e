use smplfetch::json::{escape_json_string, parse_report, render_json, unescape_json_string};
use smplfetch::render::render_human_readable;
use smplfetch::snapshot::SystemSnapshot;

fn full_snapshot() -> SystemSnapshot {
    SystemSnapshot {
        time: "10:30 AM".to_string(),
        user: "alice".to_string(),
        distro: Some("Debian".to_string()),
        arch: Some("x86_64".to_string()),
        memory: "8.0/16.0 GB".to_string(),
        battery: Some("85%".to_string()),
    }
}

#[test]
fn full_document_text() {
    let s = render_json(&full_snapshot());
    assert_eq!(
        s,
        "{\n  \"time\": \"10:30 AM\",\n  \"user\": \"alice\",\n  \"distro\": \"Debian\",\n  \"arch\": \"x86_64\",\n  \"memory\": \"8.0/16.0 GB\",\n  \"battery\": \"85%\"\n}"
    );
}

#[test]
fn suppressed_fields_are_explicit_nulls() {
    let mut info = full_snapshot();
    info.distro = None;
    info.arch = None;
    info.battery = None;
    let s = render_json(&info);
    assert_eq!(
        s,
        "{\n  \"time\": \"10:30 AM\",\n  \"user\": \"alice\",\n  \"distro\": null,\n  \"arch\": null,\n  \"memory\": \"8.0/16.0 GB\",\n  \"battery\": null\n}"
    );
}

#[test]
fn string_escaping() {
    assert_eq!(escape_json_string("plain"), "plain");
    assert_eq!(escape_json_string("a\"b"), "a\\\"b");
    assert_eq!(escape_json_string("a\\b"), "a\\\\b");
    assert_eq!(escape_json_string("a\nb\tc\rd"), "a\\nb\\tc\\rd");
    assert_eq!(escape_json_string("\u{8}\u{c}"), "\\b\\f");
    assert_eq!(escape_json_string("\u{1}\u{1f}"), "\\u0001\\u001f");
}

#[test]
fn document_is_valid_json_and_round_trips() {
    let mut info = full_snapshot();
    info.user = "al\"ice\\\n".to_string();
    let s = render_json(&info);
    let v: serde_json::Value = serde_json::from_str(&s).unwrap();
    assert_eq!(v["time"].as_str(), Some("10:30 AM"));
    assert_eq!(v["user"].as_str(), Some("al\"ice\\\n"));
    assert_eq!(v["distro"].as_str(), Some("Debian"));
    assert_eq!(v["arch"].as_str(), Some("x86_64"));
    assert_eq!(v["memory"].as_str(), Some("8.0/16.0 GB"));
    assert_eq!(v["battery"].as_str(), Some("85%"));
    assert_eq!(v.as_object().unwrap().len(), 6);
}

#[test]
fn parsed_document_matches_human_readable_fields() {
    for (minimal, no_battery) in [(false, false), (true, false), (false, true), (true, true)] {
        let mut info = full_snapshot();
        if minimal {
            info.distro = None;
            info.arch = None;
        }
        if no_battery {
            info.battery = None;
        }
        let doc: serde_json::Value = serde_json::from_str(&render_json(&info)).unwrap();
        let human = render_human_readable(&info);
        for (key, label) in [
            ("time", "Time:"),
            ("user", "User:"),
            ("distro", "Dist:"),
            ("arch", "Krnl:"),
            ("memory", "Memory:"),
            ("battery", "Battery:"),
        ] {
            let line = human.lines().find(|l| l.starts_with(label));
            match line {
                Some(l) => {
                    let value = &l[9..];
                    assert_eq!(doc[key].as_str(), Some(value));
                }
                None => assert!(doc[key].is_null()),
            }
        }
    }
}

#[test]
fn unescape_undoes_escape() {
    for s in ["", "plain", "a\"b\\c", "line\nbreak\ttab", "\u{1}\u{b}\u{1f}", "päivää"] {
        assert_eq!(unescape_json_string(&escape_json_string(s)).as_deref(), Some(s));
    }
    assert_eq!(unescape_json_string("broken\\"), None);
    assert_eq!(unescape_json_string("\\q"), None);
    assert_eq!(unescape_json_string("\\u00zz"), None);
}

#[test]
fn own_parser_round_trips_the_document() {
    let mut info = full_snapshot();
    info.user = "al\"ice\\\nwith\u{1}ctrl".to_string();
    info.distro = None;
    let parsed = parse_report(&render_json(&info)).unwrap();
    assert_eq!(parsed.time, info.time);
    assert_eq!(parsed.user, info.user);
    assert_eq!(parsed.distro, info.distro);
    assert_eq!(parsed.arch, info.arch);
    assert_eq!(parsed.memory, info.memory);
    assert_eq!(parsed.battery, info.battery);
}

#[test]
fn own_parser_rejects_other_text() {
    assert!(parse_report("").is_none());
    assert!(parse_report("{}").is_none());
    assert!(parse_report("not json").is_none());
    assert!(parse_report("{\n  \"time\": null\n}").is_none());
}

#[test]
fn only_the_time_entry_differs_between_two_runs() {
    let a = full_snapshot();
    let mut b = full_snapshot();
    b.time = "10:31 AM".to_string();
    let da: serde_json::Value = serde_json::from_str(&render_json(&a)).unwrap();
    let db: serde_json::Value = serde_json::from_str(&render_json(&b)).unwrap();
    for key in ["user", "distro", "arch", "memory", "battery"] {
        assert_eq!(da[key], db[key]);
    }
    assert_ne!(da["time"], db["time"]);
}
