use cockpit_pacman_backend::reboot::{
    critical_packages, detect_kernel_package, get_boot_time, get_reboot_status,
    normalize_uname_to_alpm, replace_first_dash_after_version, CriticalPackage,
};

#[test]
fn test_normalize_uname_to_alpm() {
    assert_eq!(
        normalize_uname_to_alpm("6.17.9-arch1-1", "linux"),
        "6.17.9.arch1-1"
    );
    assert_eq!(
        normalize_uname_to_alpm("6.12.61-1-lts", "linux-lts"),
        "6.12.61-1"
    );
    assert_eq!(
        normalize_uname_to_alpm("6.17.9-zen1-1-zen", "linux-zen"),
        "6.17.9.zen1-1"
    );
    assert_eq!(
        normalize_uname_to_alpm("6.17.11-hardened1-1-hardened", "linux-hardened"),
        "6.17.11.hardened1-1"
    );
}

#[test]
fn test_detect_kernel_package() {
    assert_eq!(detect_kernel_package("6.17.9-arch1-1"), Some("linux"));
    assert_eq!(detect_kernel_package("6.12.61-1-lts"), Some("linux-lts"));
    assert_eq!(
        detect_kernel_package("6.17.9-zen1-1-zen"),
        Some("linux-zen")
    );
    assert_eq!(
        detect_kernel_package("6.17.11-hardened1-1-hardened"),
        Some("linux-hardened")
    );
    assert_eq!(detect_kernel_package("5.15.0-generic"), None);
}

#[test]
fn first_dash_becomes_a_dot_and_only_the_first() {
    assert_eq!(replace_first_dash_after_version("a-b-c"), "a.b-c");
    assert_eq!(replace_first_dash_after_version("abc"), "abc");
    assert_eq!(replace_first_dash_after_version(""), "");
    assert_eq!(replace_first_dash_after_version("-x"), ".x");
}

fn critical(dates: [Option<i64>; 4]) -> Vec<CriticalPackage> {
    critical_packages()
        .into_iter()
        .zip(dates)
        .map(|(name, install_date)| CriticalPackage { name, install_date })
        .collect()
}

#[test]
fn reboot_is_due_for_a_changed_kernel() {
    let status = get_reboot_status(
        "6.17.9-arch1-1",
        Some("6.17.10.arch1-1".to_string()),
        &critical([Some(200), None, None, None]),
        100,
    );
    assert!(status.requires_reboot);
    assert_eq!(status.reason, "kernel_update");
    assert_eq!(status.running_kernel.as_deref(), Some("6.17.9-arch1-1"));
    assert_eq!(status.installed_kernel.as_deref(), Some("6.17.10.arch1-1"));
    assert_eq!(status.kernel_package.as_deref(), Some("linux"));
    assert!(status.updated_packages.is_empty());
}

#[test]
fn reboot_is_due_for_critical_packages_installed_after_boot() {
    let status = get_reboot_status(
        "6.17.9-arch1-1",
        Some("6.17.9.arch1-1".to_string()),
        &critical([Some(200), Some(100), None, Some(101)]),
        100,
    );
    assert!(status.requires_reboot);
    assert_eq!(status.reason, "critical_packages");
    assert_eq!(status.updated_packages, vec!["systemd".to_string(), "intel-ucode".to_string()]);
}

#[test]
fn no_reboot_where_nothing_changed() {
    let status = get_reboot_status(
        "5.15.0-generic",
        Some("5.15.0".to_string()),
        &critical([Some(1), Some(2), None, None]),
        100,
    );
    assert!(!status.requires_reboot);
    assert_eq!(status.reason, "none");
    assert_eq!(status.installed_kernel, None);
    assert_eq!(status.kernel_package, None);
}

#[test]
fn boot_time_is_read_from_the_first_btime_line() {
    let stat = "cpu  1 2 3\nintr 5\nbtime 1704067200\nprocesses 9\nbtime 5\n";
    assert_eq!(get_boot_time(stat), Ok(1704067200));
    assert_eq!(get_boot_time("btime   42  \n"), Ok(42));
    assert_eq!(get_boot_time("btime \n"), Err("Failed to parse btime".to_string()));
    assert_eq!(get_boot_time("btime x\nbtime 1\n"), Err("Failed to parse btime".to_string()));
    assert_eq!(get_boot_time("cpu 1\n"), Err("btime not found in /proc/stat".to_string()));
    assert_eq!(get_boot_time(""), Err("btime not found in /proc/stat".to_string()));
    assert_eq!(get_boot_time("btime1\n"), Err("btime not found in /proc/stat".to_string()));
    assert_eq!(get_boot_time("btime -7"), Ok(-7));
}
