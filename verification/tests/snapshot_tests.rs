use smplfetch::args::{parse_args, Config};
use smplfetch::report::render_report;
use smplfetch::snapshot::collect_system_info;
use smplfetch::strip::{color_strip_colors, strip_glyph, strip_text, StripColor};

#[test]
fn battery_field_follows_the_readings() {
    let readings = vec![Some("77\n".to_string()), None];
    let info = collect_system_info(false, false, &readings);
    assert_eq!(info.battery.as_deref(), Some("77%"));
}

#[test]
fn unreadable_sources_give_the_sentinel_field() {
    let readings: Vec<Option<String>> = vec![None, None];
    let info = collect_system_info(false, false, &readings);
    assert_eq!(info.battery.as_deref(), Some("N/A"));
}

#[test]
fn no_battery_omits_the_field() {
    let readings: Vec<Option<String>> = Vec::new();
    let info = collect_system_info(true, false, &readings);
    assert!(info.battery.is_none());
    assert!(info.distro.is_some() && info.arch.is_some());
}

#[test]
fn minimal_omits_distro_and_arch() {
    let readings: Vec<Option<String>> = Vec::new();
    let info = collect_system_info(false, true, &readings);
    assert!(info.distro.is_none() && info.arch.is_none());
    assert!(info.battery.is_some());
}

#[test]
fn every_flag_combination_yields_output() {
    for bits in 0u32..16 {
        let cfg = Config {
            color_strip: bits & 1 != 0,
            no_battery: bits & 2 != 0,
            json: bits & 4 != 0,
            minimal: bits & 8 != 0,
        };
        let readings: Vec<Option<String>> = vec![None, None];
        let info = collect_system_info(cfg.no_battery, cfg.minimal, &readings);
        let out = render_report(&cfg, &info);
        assert!(!out.is_empty());
    }
}

#[test]
fn parse_then_collect_respects_the_flags() {
    let args: Vec<String> = vec!["-mb".to_string()];
    let cfg = parse_args(&args).unwrap();
    let readings: Vec<Option<String>> = Vec::new();
    let info = collect_system_info(cfg.no_battery, cfg.minimal, &readings);
    assert!(info.distro.is_none() && info.arch.is_none() && info.battery.is_none());
}

#[test]
fn palette_is_the_fixed_eight_colors() {
    let v = color_strip_colors();
    assert_eq!(
        v,
        vec![
            StripColor::Black,
            StripColor::Red,
            StripColor::Green,
            StripColor::Yellow,
            StripColor::Blue,
            StripColor::Magenta,
            StripColor::Cyan,
            StripColor::White,
        ]
    );
}

#[test]
fn strip_shows_eight_glyphs_and_a_newline() {
    let s = strip_text();
    assert_eq!(s, "████████\n");
    assert_eq!(s.chars().filter(|c| *c == strip_glyph()).count(), 8);
    assert!(s.ends_with('\n'));
}
