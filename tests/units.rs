use sysmon::units::format_bytes;

#[test]
fn format_small_counts_in_bytes() {
    assert_eq!(format_bytes(0), "0.00 B");
    assert_eq!(format_bytes(512), "512.00 B");
    assert_eq!(format_bytes(1023), "1023.00 B");
}

#[test]
fn format_picks_largest_unit() {
    assert_eq!(format_bytes(1024), "1.00 KB");
    assert_eq!(format_bytes(1536), "1.50 KB");
    assert_eq!(format_bytes(5 * 1024 * 1024), "5.00 MB");
    assert_eq!(format_bytes(3 * 1024 * 1024 * 1024 / 2), "1.50 GB");
    assert_eq!(format_bytes(1u64 << 40), "1.00 TB");
    assert_eq!(format_bytes(1u64 << 50), "1.00 PB");
    assert_eq!(format_bytes(1u64 << 60), "1024.00 PB");
}

#[test]
fn format_rounds_to_two_decimals() {
    assert_eq!(format_bytes(1100), "1.07 KB");
    assert_eq!(format_bytes(1152), "1.12 KB");
    assert_eq!(format_bytes(1048575), "1024.00 KB");
    assert_eq!(format_bytes(u64::MAX), "16384.00 PB");
}
