use sysfetch_rs::snapshot::App;
use sysfetch_rs::snapshot::SystemInfo;

#[test]
fn fallbacks_substitute_missing_facts() {
    let info = SystemInfo::from_facts(
        None, None, None, None, None, 0, None, 4, 1024, 512, None, None,
    );
    assert_eq!(info.os_name, "Unknown");
    assert_eq!(info.os_version, "Unknown");
    assert_eq!(info.kernel_version, "Unknown");
    assert_eq!(info.hostname, "Unknown");
    assert_eq!(info.username, "Unknown");
    assert_eq!(info.cpu_model, "Unknown");
    assert_eq!(info.gpu_info, "Unknown GPU");
    assert_eq!(info.local_ip, "Unknown IP");
    assert_eq!(info.uptime, "0m");
    assert_eq!(info.cpu_cores, 4);
    assert_eq!(info.memory_total, 1024);
    assert_eq!(info.memory_used, 512);
    assert_eq!(info.disk_total, 0);
    assert_eq!(info.disk_used, 0);
}

#[test]
fn queried_facts_are_kept() {
    let info = SystemInfo::from_facts(
        Some("Linux".to_string()),
        Some("6.1".to_string()),
        Some("6.1.0".to_string()),
        Some("box".to_string()),
        Some("user".to_string()),
        90061,
        Some("Chip".to_string()),
        16,
        2048,
        1024,
        Some("GPU".to_string()),
        Some("10.0.0.1".to_string()),
    );
    assert_eq!(info.os_name, "Linux");
    assert_eq!(info.uptime, "1d 1h 1m");
    assert_eq!(info.gpu_info, "GPU");
    assert_eq!(info.local_ip, "10.0.0.1");
    // disk querying is deliberately unimplemented
    assert_eq!(info.disk_total, 0);
}

#[test]
fn app_starts_not_quitting() {
    let info = SystemInfo::from_facts(
        None, None, None, None, None, 61, None, 1, 0, 0, None, None,
    );
    let app = App::new(info);
    assert!(!app.should_quit);
    assert_eq!(app.system_info.uptime, "1m");
}
