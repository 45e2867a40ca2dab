use felix::display::{format_bytes, format_time};

#[test]
fn format_bytes_units() {
    assert_eq!(format_bytes(0), "0 B");
    assert_eq!(format_bytes(512), "512 B");
    assert_eq!(format_bytes(1024), "1 KiB");
    assert_eq!(format_bytes(2048), "2 KiB");
    assert_eq!(format_bytes(1024 * 1024), "1 MiB");
    assert_eq!(format_bytes(1024 * 1024 * 1024), "1.0 GiB");
    assert_eq!(format_bytes(2 * 1024 * 1024 * 1024), "2.0 GiB");
}

#[test]
fn format_bytes_rounds_to_nearest() {
    assert_eq!(format_bytes(1023), "1023 B");
    assert_eq!(format_bytes(1535), "1 KiB");
    assert_eq!(format_bytes(1537), "2 KiB");
    assert_eq!(format_bytes(1536), "2 KiB");
    assert_eq!(format_bytes(2560), "2 KiB");
    assert_eq!(format_bytes(1024 * 1024 * 1024 + 110 * 1024 * 1024), "1.1 GiB");
    assert_eq!(format_bytes(u64::MAX), "17179869184.0 GiB");
}

#[test]
fn format_time_basic() {
    assert_eq!(format_time(0, 1_000_000_000), "00:00");
    assert_eq!(format_time(60, 1_000_000_000), "01:00");
    assert_eq!(format_time(150, 1_000_000_000), "02:30");
}

#[test]
fn format_time_long_and_fractional() {
    assert_eq!(format_time(3, 500_000_000), "00:01");
    assert_eq!(format_time(6_000, 1_000_000_000), "100:00");
    assert_eq!(format_time(599, 1_000_000_000), "09:59");
}
