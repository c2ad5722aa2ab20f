use sysfetch_rs::format_bytes;
use sysfetch_rs::format_uptime;

#[test]
fn test_format_uptime() {
    assert_eq!(format_uptime(3661), "1h 1m");
    assert_eq!(format_uptime(90061), "1d 1h 1m");
    assert_eq!(format_uptime(61), "1m");
}

#[test]
fn test_format_bytes() {
    assert_eq!(format_bytes(1024), "1.0 KB");
    assert_eq!(format_bytes(1048576), "1.0 MB");
    assert_eq!(format_bytes(1073741824), "1.0 GB");
}

#[test]
fn uptime_drops_seconds() {
    assert_eq!(format_uptime(0), "0m");
    assert_eq!(format_uptime(59), "0m");
    assert_eq!(format_uptime(60), "1m");
    assert_eq!(format_uptime(3600), "1h 0m");
    assert_eq!(format_uptime(7325), "2h 2m");
    assert_eq!(format_uptime(86400), "1d 0h 0m");
    assert_eq!(format_uptime(90000), "1d 1h 0m");
}

#[test]
fn uptime_units_are_modular() {
    // 2 days, 23 hours, 59 minutes, 59 seconds
    let s = 2 * 86400 + 23 * 3600 + 59 * 60 + 59;
    assert_eq!(format_uptime(s), "2d 23h 59m");
}

#[test]
fn bytes_below_threshold_print_as_integers() {
    assert_eq!(format_bytes(0), "0 B");
    assert_eq!(format_bytes(1), "1 B");
    assert_eq!(format_bytes(500), "500 B");
    assert_eq!(format_bytes(1023), "1023 B");
}

#[test]
fn bytes_kb_tier_has_one_decimal() {
    assert_eq!(format_bytes(1536), "1.5 KB");
    assert_eq!(format_bytes(2048), "2.0 KB");
    // exact half rounds to the even neighbour
    assert_eq!(format_bytes(1280), "1.2 KB");
    // just below the MB threshold
    assert_eq!(format_bytes(1048575), "1024.0 KB");
}

#[test]
fn bytes_large_tiers() {
    assert_eq!(format_bytes(1099511627776), "1.0 TB");
    assert_eq!(format_bytes(2199023255552), "2.0 TB");
    assert_eq!(format_bytes(1610612736), "1.5 GB");
}
