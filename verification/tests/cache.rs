use cockpit_pacman_backend::cache::{
    clean_cache, cleanup_line, cleanup_started, get_cache_info, has_archive_extension, keep_option,
    parse_package_filename, CacheFile, CachePackage,
};
use cockpit_pacman_backend::events::StreamEvent;

#[test]
fn test_parse_package_filename_simple() {
    let result = parse_package_filename("ada-1.0.0-1-x86_64.pkg.tar.zst");
    assert_eq!(result, Some(("ada".to_string(), "1.0.0-1".to_string())));
}

#[test]
fn test_parse_package_filename_with_dashes_in_name() {
    let result = parse_package_filename("lib32-glibc-2.39-1-x86_64.pkg.tar.zst");
    assert_eq!(
        result,
        Some(("lib32-glibc".to_string(), "2.39-1".to_string()))
    );
}

#[test]
fn test_parse_package_filename_complex_version() {
    let result = parse_package_filename("linux-6.7.0.arch1-1-x86_64.pkg.tar.zst");
    assert_eq!(
        result,
        Some(("linux".to_string(), "6.7.0.arch1-1".to_string()))
    );
}

#[test]
fn test_parse_package_filename_xz_extension() {
    let result = parse_package_filename("pacman-6.0.2-7-x86_64.pkg.tar.xz");
    assert_eq!(result, Some(("pacman".to_string(), "6.0.2-7".to_string())));
}

#[test]
fn test_parse_package_filename_gz_extension() {
    let result = parse_package_filename("gzip-1.13-1-x86_64.pkg.tar.gz");
    assert_eq!(result, Some(("gzip".to_string(), "1.13-1".to_string())));
}

#[test]
fn test_parse_package_filename_invalid_extension() {
    let result = parse_package_filename("package-1.0-1-x86_64.pkg.tar.bz2");
    assert_eq!(result, None);
}

#[test]
fn test_parse_package_filename_too_few_parts() {
    let result = parse_package_filename("incomplete-1.0.pkg.tar.zst");
    assert_eq!(result, None);
}

#[test]
fn test_parse_package_filename_any_arch() {
    let result = parse_package_filename("bash-completion-2.11-2-any.pkg.tar.zst");
    assert_eq!(
        result,
        Some(("bash-completion".to_string(), "2.11-2".to_string()))
    );
}


#[test]
fn package_names_may_hold_dashes_and_be_empty() {
    assert_eq!(parse_package_filename("a-b-c-d-e-f.pkg.tar.zst"), Some(("a-b-c".to_string(), "d-e".to_string())));
    assert_eq!(parse_package_filename("-1-2-any.pkg.tar.gz"), Some(("".to_string(), "1-2".to_string())));
    assert_eq!(parse_package_filename("---.pkg.tar.xz"), Some(("".to_string(), "-".to_string())));
    assert_eq!(parse_package_filename("a-1-2.pkg.tar.zst"), None);
    assert_eq!(parse_package_filename(".pkg.tar.zst"), None);
    assert_eq!(parse_package_filename(""), None);
    assert_eq!(parse_package_filename("a-1-2-any.pkg.tar.zst.sig"), None);
    assert_eq!(parse_package_filename("a-1-2-any.PKG.TAR.ZST"), None);
}

#[test]
fn cache_info_counts_archives_and_lists_package_files() {
    let file = |name: &str, size: i64| CacheFile { filename: name.to_string(), size };
    for (name, yes) in [
        ("a.zst", true),
        ("a.pkg.tar.xz", true),
        ("a.gz", true),
        (".zst", false),
        (".a.zst", true),
        ("a.zst.sig", false),
        ("zst", false),
        ("a.bz2", false),
        ("a.", false),
        ("", false),
    ] {
        assert_eq!(has_archive_extension(name), yes, "{:?}", name);
        let ext = std::path::Path::new(name).extension();
        assert_eq!(yes, ext.map_or(false, |e| e == "zst" || e == "xz" || e == "gz"), "{:?}", name);
    }
    let files = vec![
        file("linux-6.7.0.arch1-1-x86_64.pkg.tar.zst", 100),
        file("linux-6.7.0.arch1-1-x86_64.pkg.tar.zst.sig", 1),
        file("notes.gz", 7),
        file("bash-5.2-1-x86_64.pkg.tar.xz", 30),
        file("README", 5),
    ];
    let info = get_cache_info(&files, "/var/cache/pacman/pkg");
    assert_eq!(info.total_size, 137);
    assert_eq!(info.package_count, 2);
    assert_eq!(info.path, "/var/cache/pacman/pkg");
    assert_eq!(
        info.packages,
        vec![
            CachePackage {
                name: "linux".to_string(),
                version: "6.7.0.arch1-1".to_string(),
                filename: "linux-6.7.0.arch1-1-x86_64.pkg.tar.zst".to_string(),
                size: 100,
            },
            CachePackage {
                name: "bash".to_string(),
                version: "5.2-1".to_string(),
                filename: "bash-5.2-1-x86_64.pkg.tar.xz".to_string(),
                size: 30,
            },
        ]
    );
    let big = vec![file("a.gz", i64::MAX), file("b.gz", 5)];
    assert_eq!(get_cache_info(&big, "p").total_size, i64::MAX);
    assert_eq!(get_cache_info(&vec![], "p").package_count, 0);
}

#[test]
fn cache_cleanup_records() {
    assert_eq!(keep_option(3), "-k3");
    assert_eq!(keep_option(0), "-k0");
    assert_eq!(
        cleanup_started(),
        StreamEvent::Event { event: "Starting cache cleanup".to_string(), package: None }
    );
    assert_eq!(cleanup_line("   "), None);
    assert_eq!(cleanup_line(""), None);
    assert_eq!(
        cleanup_line(" removed x "),
        Some(StreamEvent::Log { level: "info".to_string(), message: " removed x ".to_string() })
    );
    assert_eq!(
        clean_cache(true, Some(0)),
        StreamEvent::Complete { success: true, message: Some("Cache cleanup completed".to_string()) }
    );
    assert_eq!(
        clean_cache(false, Some(2)),
        StreamEvent::Complete {
            success: false,
            message: Some("paccache failed with exit code 2".to_string()),
        }
    );
    assert_eq!(
        clean_cache(false, None),
        StreamEvent::Complete {
            success: false,
            message: Some("paccache failed with exit code -1".to_string()),
        }
    );
}
