use smplfetch::battery::{get_battery_percentage, parse_battery_line};

#[test]
fn plain_number_parses() {
    assert_eq!(parse_battery_line("85"), Some(85));
}

#[test]
fn newline_and_spaces_are_trimmed() {
    assert_eq!(parse_battery_line("97\n"), Some(97));
    assert_eq!(parse_battery_line("  42  "), Some(42));
    assert_eq!(parse_battery_line("\t7\r\n"), Some(7));
}

#[test]
fn junk_does_not_parse() {
    assert_eq!(parse_battery_line(""), None);
    assert_eq!(parse_battery_line("   "), None);
    assert_eq!(parse_battery_line("abc"), None);
    assert_eq!(parse_battery_line("4 2"), None);
    assert_eq!(parse_battery_line("-5"), None);
    assert_eq!(parse_battery_line("12%"), None);
}

#[test]
fn too_large_a_number_does_not_parse() {
    assert_eq!(parse_battery_line("18446744073709551615"), Some(u64::MAX));
    assert_eq!(parse_battery_line("18446744073709551616"), None);
    assert_eq!(parse_battery_line("99999999999999999999999"), None);
}

#[test]
fn first_readable_source_wins() {
    let readings = vec![Some("10\n".to_string()), Some("20\n".to_string())];
    assert_eq!(get_battery_percentage(&readings), "10%");
}

#[test]
fn unreadable_first_source_falls_through() {
    let readings = vec![None, Some("42\n".to_string())];
    assert_eq!(get_battery_percentage(&readings), "42%");
}

#[test]
fn unparseable_first_source_falls_through() {
    let readings = vec![Some("garbage".to_string()), Some("42\n".to_string())];
    assert_eq!(get_battery_percentage(&readings), "42%");
}

#[test]
fn no_readable_source_gives_the_sentinel() {
    let readings: Vec<Option<String>> = vec![None, None];
    assert_eq!(get_battery_percentage(&readings), "N/A");
    let readings = vec![Some("x".to_string()), Some("".to_string())];
    assert_eq!(get_battery_percentage(&readings), "N/A");
    let readings: Vec<Option<String>> = Vec::new();
    assert_eq!(get_battery_percentage(&readings), "N/A");
}

#[test]
fn values_are_not_clamped() {
    let readings = vec![Some("250".to_string())];
    assert_eq!(get_battery_percentage(&readings), "250%");
    let readings = vec![Some("0".to_string())];
    assert_eq!(get_battery_percentage(&readings), "0%");
}
