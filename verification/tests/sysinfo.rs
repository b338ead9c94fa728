use rustcraft::sysinfo::{memory_total, memory_used};

#[test]
fn statm_second_field_counts_pages() {
    assert_eq!(memory_used("1234 56 78 1 0 90 0\n"), 56 * 4096);
    assert_eq!(memory_used("  7\t\t3"), 3 * 4096);
    assert_eq!(memory_used("1"), 0);
    assert_eq!(memory_used(""), 0);
    assert_eq!(memory_used("1 x2"), 0);
    assert_eq!(memory_used("1 +2"), 2 * 4096);
    assert_eq!(memory_used("1 -2"), 0);
    assert_eq!(memory_used("1 18446744073709551616"), 0);
    // the product wraps around
    assert_eq!(memory_used("1 18446744073709551615"), 18446744073709551615u64.wrapping_mul(4096));
}

#[test]
fn meminfo_total_line() {
    let text = "MemFree:   100 kB\nMemTotal:       16314756 kB\nMemAvailable: 5 kB\n";
    assert_eq!(memory_total(text), 16314756 * 1024);
    assert_eq!(memory_total("MemTotal:\nMemTotal: 2 kB"), 2048);
    assert_eq!(memory_total("MemTotal: abc\r\nMemTotal: 3\r\n"), 3072);
    assert_eq!(memory_total(" MemTotal: 4"), 0);
    assert_eq!(memory_total(""), 0);
}
