use cockpit_pacman_backend::validation::{
    validate_depth, validate_direction, validate_json_payload_size, validate_keep_versions,
    validate_max_packages, validate_mirror_timeout, validate_mirror_url, validate_package_name,
    validate_pagination, validate_schedule, validate_search_query, validate_version,
};

#[test]
fn test_validate_package_name_valid() {
    assert!(validate_package_name("linux").is_ok());
    assert!(validate_package_name("python-pip").is_ok());
    assert!(validate_package_name("lib32-gcc-libs").is_ok());
    assert!(validate_package_name("r").is_ok());
    assert!(validate_package_name("gtk4").is_ok());
    assert!(validate_package_name("xorg-server").is_ok());
    assert!(validate_package_name("Linux").is_ok()); // uppercase ok - ALPM allows it
    assert!(validate_package_name("foo;bar").is_ok()); // special chars ok
}

#[test]
fn test_validate_package_name_invalid() {
    assert!(validate_package_name("").is_err());
    assert!(validate_package_name(&"a".repeat(300)).is_err()); // too long
}

#[test]
fn test_validate_search_query_valid() {
    assert!(validate_search_query("linux").is_ok());
    assert!(validate_search_query("Python HTTP").is_ok()); // mixed case ok for search
    assert!(validate_search_query("lib").is_ok());
}

#[test]
fn test_validate_search_query_invalid() {
    assert!(validate_search_query("").is_err());
    assert!(validate_search_query(&"a".repeat(300)).is_err());
    assert!(validate_search_query("foo\x00bar").is_err()); // null byte
    assert!(validate_search_query("foo\nbar").is_err()); // newline
}

#[test]
fn test_validate_pagination_valid() {
    assert!(validate_pagination(0, 50).is_ok());
    assert!(validate_pagination(100, 100).is_ok());
    assert!(validate_pagination(0, 1000).is_ok());
    assert!(validate_pagination(1_000_000, 1).is_ok());
}

#[test]
fn test_validate_pagination_invalid() {
    assert!(validate_pagination(0, 0).is_err()); // zero limit
    assert!(validate_pagination(0, 1001).is_err()); // limit too high
    assert!(validate_pagination(2_000_000, 50).is_err()); // offset too high
}

#[test]
fn test_validate_keep_versions_valid() {
    assert!(validate_keep_versions(0).is_ok());
    assert!(validate_keep_versions(1).is_ok());
    assert!(validate_keep_versions(3).is_ok());
    assert!(validate_keep_versions(50).is_ok());
    assert!(validate_keep_versions(100).is_ok());
}

#[test]
fn test_validate_keep_versions_invalid() {
    assert!(validate_keep_versions(101).is_err());
    assert!(validate_keep_versions(1000).is_err());
    assert!(validate_keep_versions(u32::MAX).is_err());
}

#[test]
fn test_validate_mirror_url_valid() {
    assert!(validate_mirror_url("https://mirror.archlinux.org/$repo/os/$arch").is_ok());
    assert!(validate_mirror_url("https://geo.mirror.pkgbuild.com/$repo/os/$arch").is_ok());
    assert!(validate_mirror_url("http://mirror.example.com/$repo/os/$arch").is_ok());
    assert!(validate_mirror_url("https://mirror.example.com/archlinux/$repo/os/$arch/").is_ok());
}

#[test]
fn test_validate_mirror_url_empty() {
    assert!(validate_mirror_url("").is_err());
}

#[test]
fn test_validate_mirror_url_too_long() {
    let long_url = format!("https://mirror.example.com/{}", "a".repeat(2100));
    assert!(validate_mirror_url(&long_url).is_err());
}

#[test]
fn test_validate_mirror_url_invalid_scheme() {
    assert!(validate_mirror_url("ftp://mirror.example.com/$repo/os/$arch").is_err());
    assert!(validate_mirror_url("file:///etc/pacman.d/mirrorlist").is_err());
    assert!(validate_mirror_url("rsync://mirror.example.com/$repo/os/$arch").is_err());
    assert!(validate_mirror_url("mirror.example.com/$repo/os/$arch").is_err());
}

#[test]
fn test_validate_mirror_url_control_chars() {
    assert!(validate_mirror_url("https://mirror.example.com/\x00$repo/os/$arch").is_err());
    assert!(validate_mirror_url("https://mirror.example.com/\n$repo/os/$arch").is_err());
}

#[test]
fn test_validate_mirror_url_path_traversal() {
    assert!(validate_mirror_url("https://mirror.example.com/../$repo/os/$arch").is_err());
    assert!(validate_mirror_url("https://mirror.example.com//../$repo/os/$arch").is_err());
}

#[test]
fn test_validate_mirror_url_dangerous_chars() {
    assert!(validate_mirror_url("https://mirror.example.com/$repo/os/$arch;rm -rf").is_err());
    assert!(validate_mirror_url("https://mirror.example.com/$repo/os/$arch|cat").is_err());
    assert!(validate_mirror_url("https://mirror.example.com/$repo/os/$arch&echo").is_err());
    assert!(validate_mirror_url("https://mirror.example.com/$repo/os/$arch`id`").is_err());
    assert!(validate_mirror_url("https://mirror.example.com/$repo/os/$arch'").is_err());
    assert!(validate_mirror_url("https://mirror.example.com/$repo/os/$arch\"").is_err());
}

#[test]
fn test_validate_mirror_url_invalid_dollar() {
    assert!(validate_mirror_url("https://mirror.example.com/$repo/os/$arch$foo").is_err());
    assert!(validate_mirror_url("https://mirror.example.com/$notrepo/os/$arch").is_err());
}

#[test]
fn test_validate_mirror_url_at_boundary() {
    // "https://mirror.example.com/" is 27 characters
    let base_len = "https://mirror.example.com/".len();
    assert_eq!(base_len, 27);

    let url_2048 = format!("https://mirror.example.com/{}", "a".repeat(2048 - base_len));
    assert_eq!(url_2048.len(), 2048);
    assert!(validate_mirror_url(&url_2048).is_ok());

    let url_2049 = format!("https://mirror.example.com/{}", "a".repeat(2049 - base_len));
    assert_eq!(url_2049.len(), 2049);
    assert!(validate_mirror_url(&url_2049).is_err());
}

#[test]
fn test_validate_mirror_timeout_valid() {
    assert!(validate_mirror_timeout(1).is_ok());
    assert!(validate_mirror_timeout(30).is_ok());
    assert!(validate_mirror_timeout(60).is_ok());
    assert!(validate_mirror_timeout(300).is_ok());
}

#[test]
fn test_validate_mirror_timeout_invalid() {
    assert!(validate_mirror_timeout(0).is_err());
    assert!(validate_mirror_timeout(301).is_err());
    assert!(validate_mirror_timeout(1000).is_err());
}

#[test]
fn test_validate_version_valid() {
    assert!(validate_version("1.0.0-1").is_ok());
    assert!(validate_version("6.7.0.arch1-1").is_ok());
    assert!(validate_version("2:1.0.0-1").is_ok()); // epoch
    assert!(validate_version("r123.abc456-1").is_ok()); // git revisions
}

#[test]
fn test_validate_version_empty() {
    let result = validate_version("");
    assert!(result.is_err());
    assert!(result.unwrap_err().to_string().contains("cannot be empty"));
}

#[test]
fn test_validate_version_too_long() {
    let long_version = "a".repeat(129);
    let result = validate_version(&long_version);
    assert!(result.is_err());
    assert!(result.unwrap_err().to_string().contains("too long"));
}

#[test]
fn test_validate_version_path_traversal() {
    assert!(validate_version("1.0/../etc/passwd").is_err());
    assert!(validate_version("1.0/../../root").is_err());
    assert!(validate_version("1.0/foo").is_err());
    assert!(validate_version("1.0\\bar").is_err());
}

#[test]
fn test_validate_version_control_chars() {
    assert!(validate_version("1.0\x00-1").is_err()); // null byte
    assert!(validate_version("1.0\n-1").is_err()); // newline
    assert!(validate_version("1.0\r-1").is_err()); // carriage return
    assert!(validate_version("1.0\t-1").is_err()); // tab
}


#[test]
fn test_validate_schedule_empty() {
    let result = validate_schedule("");
    assert!(result.is_err());
    assert!(result.unwrap_err().to_string().contains("cannot be empty"));
}

#[test]
fn test_validate_schedule_too_long() {
    let long_schedule = "a".repeat(257);
    let result = validate_schedule(&long_schedule);
    assert!(result.is_err());
    assert!(result.unwrap_err().to_string().contains("too long"));
}

#[test]
fn test_validate_schedule_control_chars() {
    assert!(validate_schedule("daily\x00").is_err());
    assert!(validate_schedule("daily\n").is_err());
    assert!(validate_schedule("weekly\r").is_err());
}

#[test]
fn test_validate_schedule_injection_chars() {
    // These could be used to inject systemd directives
    assert!(validate_schedule("[Timer]").is_err());
    assert!(validate_schedule("OnCalendar=daily").is_err());
    assert!(validate_schedule("daily]").is_err());
}

#[test]
fn test_validate_schedule_valid_presets() {
    assert!(validate_schedule("hourly").is_ok());
    assert!(validate_schedule("daily").is_ok());
    assert!(validate_schedule("weekly").is_ok());
    assert!(validate_schedule("monthly").is_ok());
    assert!(validate_schedule("yearly").is_ok());
    assert!(validate_schedule("quarterly").is_ok());
}

#[test]
fn test_validate_schedule_valid_oncalendar() {
    assert!(validate_schedule("*-*-* 06:00:00").is_ok());
    assert!(validate_schedule("Mon *-*-* 00:00:00").is_ok());
    assert!(validate_schedule("Sun,Wed *-*-* 12:00").is_ok());
    assert!(validate_schedule("*-*-1/2 04:00:00").is_ok());
    assert!(validate_schedule("2024-01-01 00:00:00").is_ok());
}

#[test]
fn test_validate_schedule_invalid_chars() {
    assert!(validate_schedule("daily; rm -rf /").is_err());
    assert!(validate_schedule("weekly && echo foo").is_err());
    assert!(validate_schedule("monthly | cat").is_err());
    assert!(validate_schedule("daily`id`").is_err());
    assert!(validate_schedule("weekly$(whoami)").is_err());
}


#[test]
fn test_validate_json_payload_size_valid() {
    let small_payload = r#"{"mirrors": []}"#;
    assert!(validate_json_payload_size(small_payload).is_ok());

    let medium_payload = "a".repeat(1024 * 100); // 100 KiB
    assert!(validate_json_payload_size(&medium_payload).is_ok());

    let exactly_max = "a".repeat(1024 * 1024); // 1 MiB
    assert!(validate_json_payload_size(&exactly_max).is_ok());
}

#[test]
fn test_validate_json_payload_size_too_large() {
    let too_large = "a".repeat(1024 * 1024 + 1); // 1 MiB + 1 byte
    let result = validate_json_payload_size(&too_large);
    assert!(result.is_err());
    assert!(result.unwrap_err().to_string().contains("too large"));
}


#[test]
fn test_validate_depth_valid() {
    assert!(validate_depth(1).is_ok());
    assert!(validate_depth(2).is_ok());
    assert!(validate_depth(3).is_ok());
    assert!(validate_depth(4).is_ok());
    assert!(validate_depth(5).is_ok());
}

#[test]
fn test_validate_depth_zero() {
    let result = validate_depth(0);
    assert!(result.is_err());
    assert!(
        result
            .unwrap_err()
            .to_string()
            .contains("must be between 1 and 5")
    );
}

#[test]
fn test_validate_depth_too_large() {
    let result = validate_depth(6);
    assert!(result.is_err());
    assert!(
        result
            .unwrap_err()
            .to_string()
            .contains("must be between 1 and 5")
    );

    assert!(validate_depth(100).is_err());
    assert!(validate_depth(u32::MAX).is_err());
}


#[test]
fn test_validate_direction_valid_values() {
    assert!(validate_direction("forward").is_ok());
    assert!(validate_direction("reverse").is_ok());
    assert!(validate_direction("both").is_ok());
}

#[test]
fn test_validate_direction_invalid() {
    let result = validate_direction("invalid");
    assert!(result.is_err());
    assert!(result.unwrap_err().to_string().contains("must be"));

    assert!(validate_direction("").is_err());
    assert!(validate_direction("FORWARD").is_err()); // case sensitive
    assert!(validate_direction("up").is_err());
    assert!(validate_direction("down").is_err());
}


#[test]
fn test_validate_max_packages_valid() {
    assert!(validate_max_packages(0).is_ok());
    assert!(validate_max_packages(1).is_ok());
    assert!(validate_max_packages(100).is_ok());
    assert!(validate_max_packages(500).is_ok());
    assert!(validate_max_packages(1000).is_ok());
}

#[test]
fn test_validate_max_packages_too_large() {
    let result = validate_max_packages(1001);
    assert!(result.is_err());
    assert!(
        result
            .unwrap_err()
            .to_string()
            .contains("must be at most 1000")
    );

    assert!(validate_max_packages(5000).is_err());
    assert!(validate_max_packages(usize::MAX).is_err());
}


#[test]
fn validation_messages_are_exact() {
    assert_eq!(validate_package_name("").unwrap_err(), "Package name cannot be empty");
    assert_eq!(
        validate_package_name(&"a".repeat(257)).unwrap_err(),
        "Package name too long (max 256)"
    );
    assert!(validate_package_name(&"a".repeat(256)).is_ok());
    assert_eq!(validate_search_query("").unwrap_err(), "Search query cannot be empty");
    assert_eq!(
        validate_search_query(&"q".repeat(257)).unwrap_err(),
        "Search query too long (max 256)"
    );
    assert_eq!(
        validate_search_query("a\u{7f}b").unwrap_err(),
        "Search query contains invalid characters"
    );
    assert_eq!(validate_pagination(0, 0).unwrap_err(), "Limit must be between 1 and 1000");
    assert_eq!(validate_pagination(1_000_001, 10).unwrap_err(), "Offset too large");
    assert_eq!(
        validate_keep_versions(101).unwrap_err(),
        "Keep versions must be at most 100 (got 101)"
    );
    assert_eq!(
        validate_max_packages(1001).unwrap_err(),
        "max_packages must be at most 1000 (got 1001)"
    );
    assert_eq!(
        validate_mirror_timeout(0).unwrap_err(),
        "Mirror timeout must be between 1 and 300 seconds (got 0)"
    );
    assert_eq!(
        validate_mirror_timeout(18446744073709551615).unwrap_err(),
        "Mirror timeout must be between 1 and 300 seconds (got 18446744073709551615)"
    );
    assert_eq!(validate_depth(6).unwrap_err(), "Depth must be between 1 and 5 (got 6)");
    assert_eq!(
        validate_direction("up").unwrap_err(),
        "Direction must be 'forward', 'reverse', or 'both' (got 'up')"
    );
    assert_eq!(
        validate_json_payload_size(&"a".repeat(1024 * 1024 + 1)).unwrap_err(),
        "JSON payload too large (1048577 bytes, max 1048576)"
    );
}

#[test]
fn validation_counts_bytes_not_characters() {
    // 128 two-byte characters are 256 bytes; one more byte is too many.
    let name = "\u{e9}".repeat(128);
    assert_eq!(name.len(), 256);
    assert!(validate_package_name(&name).is_ok());
    let longer = format!("{}a", name);
    assert!(validate_package_name(&longer).is_err());
}

#[test]
fn validation_rejects_every_error_kind_of_version_schedule_and_url() {
    assert_eq!(validate_version("").unwrap_err(), "Version cannot be empty");
    assert_eq!(
        validate_version(&"1".repeat(129)).unwrap_err(),
        "Version string too long (max 128)"
    );
    assert_eq!(validate_version("1..2").unwrap_err(), "Version contains invalid path characters");
    assert_eq!(
        validate_version("1.0\u{85}").unwrap_err(),
        "Version contains invalid control characters"
    );
    assert_eq!(validate_schedule("").unwrap_err(), "Schedule cannot be empty");
    assert_eq!(
        validate_schedule(&"a".repeat(257)).unwrap_err(),
        "Schedule string too long (max 256)"
    );
    assert_eq!(
        validate_schedule("daily\n").unwrap_err(),
        "Schedule contains invalid control characters"
    );
    assert_eq!(validate_schedule("a=b").unwrap_err(), "Schedule contains invalid characters");
    assert_eq!(
        validate_schedule("weekly$(whoami)").unwrap_err(),
        "Schedule contains invalid characters for OnCalendar format"
    );
    assert!(validate_schedule("Mon..Fri *-*-* 10:00~12").is_ok());
    assert_eq!(validate_mirror_url("").unwrap_err(), "Mirror URL cannot be empty");
    assert_eq!(
        validate_mirror_url(&format!("https://{}", "a".repeat(2048))).unwrap_err(),
        "Mirror URL too long (max 2048)"
    );
    assert_eq!(
        validate_mirror_url("https://a/\t").unwrap_err(),
        "Mirror URL contains invalid control characters"
    );
    assert_eq!(
        validate_mirror_url("ftp://a").unwrap_err(),
        "Mirror URL must start with https:// or http://"
    );
    assert_eq!(
        validate_mirror_url("https://a/../b").unwrap_err(),
        "Mirror URL contains suspicious path traversal"
    );
    assert_eq!(
        validate_mirror_url("https://a/<b>").unwrap_err(),
        "Mirror URL contains potentially dangerous characters"
    );
    assert_eq!(
        validate_mirror_url("https://a/$repox/$arc").unwrap_err(),
        "Mirror URL contains invalid $ usage (only $repo and $arch allowed)"
    );
    // Taking `$repo` out first can leave a new `$arch` behind, which is taken out too.
    assert!(validate_mirror_url("https://a/$ar$repoch").is_ok());
}
