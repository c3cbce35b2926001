use cockpit_pacman_backend::engine::{PackageReason, UpdateInfo};
use cockpit_pacman_backend::listing::{
    key_at_most, page_bounds, sort_with_direction, sorted_distinct, SortKey,
};
use cockpit_pacman_backend::query::{
    arrange, check_updates, find_available_updates, finds, is_ascending, list_installed,
    list_orphans, local_package_info, lowered_query, search, sync_package_info, update_candidates,
    LocalPackage, OrphanCandidate, OrphanPackage, Package, PackageDetails, SearchResult,
    SyncPackage, SyncPackageDetails, UpdateCandidate,
};

fn s(t: &str) -> String {
    t.to_string()
}

fn texts(v: &[&str]) -> Vec<SortKey> {
    v.iter().map(|t| SortKey::Text(s(t))).collect()
}

fn numbers(v: &[i64]) -> Vec<SortKey> {
    v.iter().map(|n| SortKey::Number(*n)).collect()
}

#[test]
fn order_is_stable_in_both_directions() {
    assert_eq!(sort_with_direction(&texts(&["b", "a", "c", "a"]), true), vec![1, 3, 0, 2]);
    assert_eq!(sort_with_direction(&texts(&["b", "a", "c", "a"]), false), vec![2, 0, 1, 3]);
    assert_eq!(sort_with_direction(&numbers(&[3, -1, 3, 0]), true), vec![1, 3, 0, 2]);
    assert_eq!(sort_with_direction(&numbers(&[3, -1, 3, 0]), false), vec![0, 2, 3, 1]);
    assert_eq!(sort_with_direction(&vec![], true), Vec::<usize>::new());
    assert_eq!(sort_with_direction(&texts(&["Zsh", "abc", "\u{e9}", "zsh", ""]), true), vec![4, 0, 1, 3, 2]);
    let mixed = vec![SortKey::Text(s("1")), SortKey::Number(5), SortKey::Text(s("")), SortKey::Number(-5)];
    assert_eq!(sort_with_direction(&mixed, true), vec![3, 1, 2, 0]);
    assert!(key_at_most(&SortKey::Number(i64::MAX), &SortKey::Text(s(""))));
    assert!(!key_at_most(&SortKey::Text(s("")), &SortKey::Number(0)));
    // The order agrees with a stable sort of the standard library.
    let keys = ["pear", "apple", "fig", "apple", "kiwi", "fig", "zebra", "Apple", "a", ""];
    let mut want: Vec<usize> = (0..keys.len()).collect();
    want.sort_by(|a, b| keys[*a].cmp(keys[*b]));
    assert_eq!(sort_with_direction(&texts(&keys), true), want);
    let mut want: Vec<usize> = (0..keys.len()).collect();
    want.sort_by(|a, b| keys[*a].cmp(keys[*b]).reverse());
    assert_eq!(sort_with_direction(&texts(&keys), false), want);
}

#[test]
fn pages_and_distinct_names() {
    assert_eq!(page_bounds(10, 0, 3), (0, 3));
    assert_eq!(page_bounds(10, 8, 3), (8, 10));
    assert_eq!(page_bounds(10, 10, 3), (10, 10));
    assert_eq!(page_bounds(10, 11, 3), (10, 10));
    assert_eq!(page_bounds(10, usize::MAX, usize::MAX), (10, 10));
    assert_eq!(page_bounds(10, 2, usize::MAX), (2, 10));
    assert_eq!(page_bounds(0, 0, 5), (0, 0));
    assert_eq!(
        sorted_distinct(&vec![s("extra"), s("core"), s("user"), s("core"), s("extra"), s("core")]),
        vec![s("core"), s("extra"), s("user")]
    );
    assert_eq!(sorted_distinct(&vec![]), Vec::<String>::new());
    assert_eq!(arrange(5, None, true, 1, 3), vec![1, 2, 3]);
    assert_eq!(arrange(3, Some(numbers(&[2, 3, 1])), false, 0, 2), vec![1, 0]);
    assert!(is_ascending(None));
    assert!(is_ascending(Some("asc")));
    assert!(is_ascending(Some("DESC")));
    assert!(!is_ascending(Some("desc")));
}

fn local(name: &str, desc: Option<&str>, size: i64, reason: PackageReason, repo: Option<&str>) -> LocalPackage {
    LocalPackage {
        name: s(name),
        version: s("1-1"),
        description: desc.map(s),
        installed_size: size,
        install_date: Some(7),
        reason,
        repository: repo.map(s),
    }
}

fn installed() -> Vec<LocalPackage> {
    vec![
        local("linux", Some("The Linux kernel"), 500, PackageReason::Explicit, Some("core")),
        local("glibc", Some("GNU C Library"), 300, PackageReason::Depend, Some("core")),
        local("yay", None, 20, PackageReason::Explicit, None),
        local("firefox", Some("Web browser for Linux"), 900, PackageReason::Explicit, Some("extra")),
        local("zlib", Some("Compression library"), 10, PackageReason::Depend, Some("core")),
    ]
}

fn names(packages: &[Package]) -> Vec<&str> {
    packages.iter().map(|p| p.name.as_str()).collect()
}

#[test]
fn installed_packages_are_filtered_counted_sorted_and_paged() {
    let repos = vec![s("core"), s("extra"), s("multilib")];
    let all = list_installed(&installed(), &repos, 0, 50, None, None, None, None, None).unwrap();
    assert_eq!(names(&all.packages), vec!["linux", "glibc", "yay", "firefox", "zlib"]);
    assert_eq!((all.total, all.total_explicit, all.total_dependency), (5, 3, 2));
    assert_eq!(all.repositories, vec![s("core"), s("extra"), s("user")]);
    assert!(all.warnings.is_empty());
    assert_eq!(
        all.packages[1],
        Package {
            name: s("glibc"),
            version: s("1-1"),
            description: Some(s("GNU C Library")),
            installed_size: 300,
            install_date: Some(7),
            reason: s("dependency"),
            repository: Some(s("core")),
        }
    );

    let r = list_installed(&installed(), &repos, 0, 50, Some("LINUX"), None, None, Some("name"), None).unwrap();
    assert_eq!(names(&r.packages), vec!["firefox", "linux"]);
    assert_eq!((r.total, r.total_explicit, r.total_dependency), (2, 2, 0));
    assert_eq!(r.repositories, vec![s("core"), s("extra"), s("user")]);

    // The totals by reason count what the query and the repository leave, whatever the reason asked for.
    let r = list_installed(&installed(), &repos, 0, 50, None, Some("dependency"), Some("core"), Some("size"), Some("desc")).unwrap();
    assert_eq!(names(&r.packages), vec!["glibc", "zlib"]);
    assert_eq!((r.total, r.total_explicit, r.total_dependency), (2, 1, 2));

    let r = list_installed(&installed(), &repos, 0, 50, None, Some("explicit"), Some("user"), None, None).unwrap();
    assert_eq!(names(&r.packages), vec!["yay"]);
    let r = list_installed(&installed(), &repos, 0, 50, None, Some("all"), None, Some("reason"), None).unwrap();
    assert_eq!(names(&r.packages), vec!["glibc", "zlib", "linux", "yay", "firefox"]);
    let r = list_installed(&installed(), &repos, 0, 50, None, None, None, Some("reason"), Some("desc")).unwrap();
    assert_eq!(names(&r.packages), vec!["linux", "yay", "firefox", "glibc", "zlib"]);
    let r = list_installed(&installed(), &repos, 1, 2, None, None, None, Some("size"), None).unwrap();
    assert_eq!(names(&r.packages), vec!["yay", "glibc"]);
    assert_eq!(r.total, 5);
    let r = list_installed(&installed(), &repos, 9, 2, None, None, None, Some("unknown"), None).unwrap();
    assert!(r.packages.is_empty());
    let r = list_installed(&installed(), &repos, 0, 50, None, None, Some("multilib"), None, None).unwrap();
    assert_eq!((r.total, r.total_explicit, r.total_dependency), (0, 0, 0));

    assert_eq!(
        list_installed(&installed(), &repos, 0, 50, None, None, Some("aur"), None, None),
        Err(s("Invalid repository 'aur'. Valid repositories: core, extra, multilib, user"))
    );
    assert_eq!(
        list_installed(&vec![], &vec![], 0, 50, None, None, Some("x"), None, None),
        Err(s("Invalid repository 'x'. Valid repositories: user"))
    );
    assert!(finds("Firefox", &None, &lowered_query(Some("FIRE"))));
    assert!(finds("x", &Some(s("A Fire")), &lowered_query(Some("FIRE"))));
    assert!(!finds("x", &Some(s("A Fire")), &Some(s("FIRE"))));
    assert!(finds("x", &None, &None));
}

fn offered(name: &str, desc: Option<&str>, repo: &str, installed: Option<&str>) -> SyncPackage {
    SyncPackage {
        name: s(name),
        version: s("2-1"),
        description: desc.map(s),
        repository: s(repo),
        installed_version: installed.map(s),
    }
}

#[test]
fn search_finds_sorts_and_pages() {
    let packages = vec![
        offered("vim", Some("Vi Improved"), "extra", Some("1-1")),
        offered("neovim", Some("Fork of Vim"), "extra", None),
        offered("gvim", None, "extra", None),
        offered("bash", Some("Shell"), "core", Some("2-1")),
        offered("vimpager", Some("pager"), "aur", None),
    ];
    let found = |r: &[SearchResult]| r.iter().map(|p| p.name.clone()).collect::<Vec<String>>();
    let r = search(&packages, "VIM", 0, 100, None, None, None);
    assert_eq!(found(&r.results), vec!["vim", "neovim", "gvim", "vimpager"]);
    assert_eq!((r.total, r.total_installed, r.total_not_installed), (4, 1, 3));
    assert_eq!(r.repositories, vec![s("aur"), s("extra")]);
    assert_eq!(
        r.results[0],
        SearchResult {
            name: s("vim"),
            version: s("2-1"),
            description: Some(s("Vi Improved")),
            repository: s("extra"),
            installed: true,
            installed_version: Some(s("1-1")),
        }
    );
    let r = search(&packages, "vim", 0, 100, Some(false), Some("name"), Some("desc"));
    assert_eq!(found(&r.results), vec!["vimpager", "neovim", "gvim"]);
    assert_eq!((r.total, r.total_installed, r.total_not_installed), (3, 1, 3));
    let r = search(&packages, "vim", 0, 100, Some(true), None, None);
    assert_eq!(found(&r.results), vec!["vim"]);
    let r = search(&packages, "vim", 0, 100, None, Some("status"), None);
    assert_eq!(found(&r.results), vec!["neovim", "gvim", "vimpager", "vim"]);
    let r = search(&packages, "vim", 0, 100, None, Some("status"), Some("desc"));
    assert_eq!(found(&r.results), vec!["vim", "neovim", "gvim", "vimpager"]);
    let r = search(&packages, "vim", 1, 2, None, Some("repository"), None);
    assert_eq!(found(&r.results), vec!["vim", "neovim"]);
    assert_eq!(r.total, 4);
    let r = search(&packages, "nothing", 0, 100, None, None, None);
    assert_eq!((r.total, r.total_installed, r.total_not_installed), (0, 0, 0));
    assert!(r.repositories.is_empty());
    let r = search(&packages, "shell", 0, 100, None, None, None);
    assert_eq!(found(&r.results), vec!["bash"]);
}

#[test]
fn orphans_are_listed_with_their_size() {
    let candidate = |p: LocalPackage, required_by: usize, optional_for: usize| OrphanCandidate {
        package: p,
        required_by,
        optional_for,
    };
    let all = installed();
    let candidates = vec![
        candidate(all[0].clone(), 0, 0),
        candidate(all[1].clone(), 0, 0),
        candidate(all[4].clone(), 1, 0),
        candidate(local("old", None, 45, PackageReason::Depend, None), 0, 0),
        candidate(local("opt", None, 45, PackageReason::Depend, None), 0, 2),
    ];
    let r = list_orphans(&candidates);
    assert_eq!(r.total_size, 345);
    assert_eq!(
        r.orphans,
        vec![
            OrphanPackage {
                name: s("glibc"),
                version: s("1-1"),
                description: Some(s("GNU C Library")),
                installed_size: 300,
                install_date: Some(7),
                repository: Some(s("core")),
            },
            OrphanPackage {
                name: s("old"),
                version: s("1-1"),
                description: None,
                installed_size: 45,
                install_date: Some(7),
                repository: None,
            },
        ]
    );
    let r = list_orphans(&vec![]);
    assert_eq!((r.orphans.len(), r.total_size), (0, 0));
    let huge = vec![
        candidate(local("a", None, i64::MAX, PackageReason::Depend, None), 0, 0),
        candidate(local("b", None, 1, PackageReason::Depend, None), 0, 0),
    ];
    assert_eq!(list_orphans(&huge).total_size, i64::MAX);
}

#[test]
fn updates_are_the_newer_offers() {
    let candidate = |name: &str, is_newer: bool| UpdateCandidate {
        update: UpdateInfo {
            name: s(name),
            current_version: s("1"),
            new_version: s("2"),
            download_size: 1,
            current_size: 2,
            new_size: 3,
            repository: s("core"),
        },
        is_newer,
    };
    let updates = find_available_updates(vec![candidate("a", true), candidate("b", false), candidate("c", true)]);
    let names: Vec<&str> = updates.iter().map(|u| u.name.as_str()).collect();
    assert_eq!(names, vec!["a", "c"]);
    assert!(find_available_updates(vec![]).is_empty());
}

#[test]
fn the_report_of_updates_holds_the_newer_offers_and_no_warning() {
    let candidate = |name: &str, is_newer: bool| UpdateCandidate {
        update: UpdateInfo {
            name: s(name),
            current_version: s("1.0-1"),
            new_version: s("1.1-1"),
            download_size: 10,
            current_size: 20,
            new_size: 30,
            repository: s("extra"),
        },
        is_newer,
    };
    let report = check_updates(vec![candidate("a", false), candidate("b", true)]);
    assert_eq!(report.updates.len(), 1);
    assert_eq!(report.updates[0], candidate("b", true).update);
    assert!(report.warnings.is_empty());
    let nothing = check_updates(vec![]);
    assert!(nothing.updates.is_empty() && nothing.warnings.is_empty());
}

fn details(name: &str, version: &str) -> PackageDetails {
    PackageDetails {
        name: s(name),
        version: s(version),
        description: Some(s("The Linux kernel")),
        url: Some(s("https://kernel.org/")),
        licenses: vec![s("GPL-2.0-only")],
        groups: vec![],
        provides: vec![s("WIREGUARD-MODULE")],
        depends: vec![s("coreutils"), s("kmod")],
        optdepends: vec![],
        conflicts: vec![],
        replaces: vec![],
        installed_size: 150000000,
        packager: Some(s("Arch Linux")),
        architecture: Some(s("x86_64")),
        build_date: 1704067200,
        install_date: Some(1704067200),
        reason: s("explicit"),
        validation: vec![s("pgp")],
        repository: Some(s("core")),
    }
}

fn offer(name: &str, version: &str, repo: &str) -> SyncPackageDetails {
    SyncPackageDetails {
        name: s(name),
        version: s(version),
        description: None,
        url: None,
        licenses: vec![],
        groups: vec![],
        provides: vec![],
        depends: vec![],
        optdepends: vec![],
        conflicts: vec![],
        replaces: vec![],
        download_size: 1,
        installed_size: 2,
        packager: None,
        architecture: None,
        build_date: 0,
        repository: s(repo),
    }
}

#[test]
fn details_of_an_installed_package_are_those_of_the_first_with_its_name() {
    let packages = vec![details("linux", "6.7.0-arch1-1"), details("kmod", "31"), details("kmod", "32")];
    assert_eq!(local_package_info(packages.clone(), "kmod"), Ok(details("kmod", "31")));
    assert_eq!(local_package_info(packages.clone(), "linux"), Ok(details("linux", "6.7.0-arch1-1")));
    assert_eq!(local_package_info(packages.clone(), "Linux"), Err(s("Package 'Linux' not found")));
    assert_eq!(local_package_info(packages, ""), Err(s("Package '' not found")));
    assert_eq!(local_package_info(vec![], "linux"), Err(s("Package 'linux' not found")));
}

#[test]
fn details_of_an_offer_come_from_the_repository_asked_for_or_the_first() {
    let offers = vec![
        offer("other", "9", "core"),
        offer("linux", "6.7.1", "testing"),
        offer("linux", "6.7.0", "core"),
    ];
    assert_eq!(sync_package_info(offers.clone(), "linux", None), Ok(offer("linux", "6.7.1", "testing")));
    assert_eq!(sync_package_info(offers.clone(), "linux", Some("core")), Ok(offer("linux", "6.7.0", "core")));
    assert_eq!(
        sync_package_info(offers.clone(), "linux", Some("extra")),
        Err(s("Package 'linux' not found in sync databases"))
    );
    assert_eq!(
        sync_package_info(offers.clone(), "other", Some("testing")),
        Err(s("Package 'other' not found in sync databases"))
    );
    assert_eq!(
        sync_package_info(offers, "missing", None),
        Err(s("Package 'missing' not found in sync databases"))
    );
    assert_eq!(sync_package_info(vec![], "linux", None), Err(s("Package 'linux' not found in sync databases")));
}

#[test]
fn the_first_repository_that_carries_a_package_decides() {
    let offer = |name: &str, repo: &str, version: &str, is_newer: bool| UpdateCandidate {
        update: UpdateInfo {
            name: s(name),
            current_version: s("1.0-1"),
            new_version: s(version),
            download_size: 1,
            current_size: 2,
            new_size: 3,
            repository: s(repo),
        },
        is_newer,
    };
    let offers = vec![
        vec![offer("a", "core", "1.0-1", false), offer("a", "testing", "2.0-1", true)],
        vec![],
        vec![offer("b", "extra", "1.5-1", true)],
        vec![offer("c", "core", "3.0-1", true), offer("c", "extra", "1.0-1", false)],
    ];
    let chosen = update_candidates(offers);
    assert_eq!(
        chosen,
        vec![
            offer("a", "core", "1.0-1", false),
            offer("b", "extra", "1.5-1", true),
            offer("c", "core", "3.0-1", true),
        ]
    );
    let updates = find_available_updates(chosen);
    let names: Vec<(&str, &str)> =
        updates.iter().map(|u| (u.name.as_str(), u.repository.as_str())).collect();
    assert_eq!(names, vec![("b", "extra"), ("c", "core")]);
    assert!(update_candidates(vec![]).is_empty());
    assert!(update_candidates(vec![vec![], vec![]]).is_empty());
}
