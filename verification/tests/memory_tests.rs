use smplfetch::memory::{format_memory, get_memory_usage};

const GIB: u64 = 1073741824;

#[test]
fn eight_of_sixteen_gib() {
    assert_eq!(format_memory(8 * GIB, 16 * GIB), "8.0/16.0 GB");
}

#[test]
fn zero_bytes() {
    assert_eq!(format_memory(0, 0), "0.0/0.0 GB");
}

#[test]
fn half_gib_rounds_up() {
    assert_eq!(format_memory(GIB / 2, GIB), "0.5/1.0 GB");
}

#[test]
fn tenth_boundary_rounds_half_up() {
    // Just below one twentieth of a gibibyte rounds down, just above
    // rounds up.
    assert_eq!(format_memory(53687091, GIB), "0.0/1.0 GB");
    assert_eq!(format_memory(53687092, GIB), "0.1/1.0 GB");
}

#[test]
fn fraction_carry_reaches_the_next_whole() {
    // 2 GiB less one byte is 1.999...; one decimal place makes it 2.0.
    assert_eq!(format_memory(2 * GIB - 1, 4 * GIB), "2.0/4.0 GB");
}

#[test]
fn largest_counts_do_not_overflow() {
    let s = format_memory(u64::MAX, u64::MAX);
    assert!(s.ends_with(" GB"));
    assert_eq!(s, "17179869184.0/17179869184.0 GB");
}

#[test]
fn live_memory_field_has_the_right_shape() {
    let s = get_memory_usage();
    assert!(s.ends_with(" GB"));
    let body = &s[..s.len() - 3];
    let mut parts = body.split('/');
    let used = parts.next().unwrap();
    let total = parts.next().unwrap();
    assert!(parts.next().is_none());
    for p in [used, total] {
        let mut halves = p.split('.');
        let whole = halves.next().unwrap();
        let frac = halves.next().unwrap();
        assert!(halves.next().is_none());
        assert!(!whole.is_empty() && whole.chars().all(|c| c.is_ascii_digit()));
        assert_eq!(frac.len(), 1);
        assert!(frac.chars().all(|c| c.is_ascii_digit()));
    }
}
