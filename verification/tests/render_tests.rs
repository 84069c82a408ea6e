use smplfetch::snapshot::SystemSnapshot;
use smplfetch::render::render_human_readable;

fn full_snapshot() -> SystemSnapshot {
    SystemSnapshot {
        time: "10:30 AM".to_string(),
        user: "alice".to_string(),
        distro: Some("Debian".to_string()),
        arch: Some("x86_64".to_string()),
        memory: "8.0/16.0 GB".to_string(),
        battery: Some("85%".to_string()),
    }
}

#[test]
fn full_report_lines() {
    let s = render_human_readable(&full_snapshot());
    assert_eq!(
        s,
        "Time:    10:30 AM\nUser:    alice\nDist:    Debian\nKrnl:    x86_64\nMemory:  8.0/16.0 GB\nBattery: 85%\n"
    );
}

#[test]
fn minimal_report_has_no_dist_or_krnl_line() {
    let mut info = full_snapshot();
    info.distro = None;
    info.arch = None;
    let s = render_human_readable(&info);
    assert_eq!(s, "Time:    10:30 AM\nUser:    alice\nMemory:  8.0/16.0 GB\nBattery: 85%\n");
    assert!(!s.lines().any(|l| l.starts_with("Dist:")));
    assert!(!s.lines().any(|l| l.starts_with("Krnl:")));
}

#[test]
fn suppressed_battery_has_no_battery_line() {
    let mut info = full_snapshot();
    info.battery = None;
    let s = render_human_readable(&info);
    assert_eq!(s, "Time:    10:30 AM\nUser:    alice\nDist:    Debian\nKrnl:    x86_64\nMemory:  8.0/16.0 GB\n");
    assert!(!s.lines().any(|l| l.starts_with("Battery:")));
}

#[test]
fn sentinel_battery_is_rendered_verbatim() {
    let mut info = full_snapshot();
    info.battery = Some("N/A".to_string());
    let s = render_human_readable(&info);
    assert!(s.ends_with("Battery: N/A\n"));
}

#[test]
fn only_the_time_line_differs_between_two_runs() {
    let a = full_snapshot();
    let mut b = full_snapshot();
    b.time = "10:31 AM".to_string();
    let sa = render_human_readable(&a);
    let sb = render_human_readable(&b);
    let rest_a: Vec<&str> = sa.lines().skip(1).collect();
    let rest_b: Vec<&str> = sb.lines().skip(1).collect();
    assert_eq!(rest_a, rest_b);
    assert_ne!(sa.lines().next(), sb.lines().next());
}
