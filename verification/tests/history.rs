use cockpit_pacman_backend::history::{
    get_history, history_page, matches_filter, paginate, parse_action, parse_log_line,
    read_from_end, read_log_forward, reversed, LogCounts, LogEntry, ReverseScan,
};

fn s(t: &str) -> String {
    t.to_string()
}

fn entry(timestamp: &str, action: &str, package: &str, old: Option<&str>, new: Option<&str>) -> LogEntry {
    LogEntry {
        timestamp: s(timestamp),
        action: s(action),
        package: s(package),
        old_version: old.map(s),
        new_version: new.map(s),
    }
}

const T: &str = "2024-01-01T10:00:00+0000";

fn line(words: &str) -> String {
    format!("[{}] [ALPM] {}", T, words)
}

#[test]
fn log_lines_of_every_action() {
    assert_eq!(
        parse_log_line(&line("upgraded linux (6.6.8.arch1-1 -> 6.7.0.arch1-1)")),
        Some(entry(T, "upgraded", "linux", Some("6.6.8.arch1-1"), Some("6.7.0.arch1-1")))
    );
    assert_eq!(
        parse_log_line(&line("downgraded bash (5.2-1 -> 5.1-1)")),
        Some(entry(T, "downgraded", "bash", Some("5.2-1"), Some("5.1-1")))
    );
    assert_eq!(
        parse_log_line(&line("installed zsh (5.9-4)")),
        Some(entry(T, "installed", "zsh", None, Some("5.9-4")))
    );
    assert_eq!(
        parse_log_line(&line("removed zsh (5.9-4)")),
        Some(entry(T, "removed", "zsh", Some("5.9-4"), None))
    );
    assert_eq!(
        parse_log_line(&line("uninstalled zsh (5.9-4)")),
        Some(entry(T, "removed", "zsh", Some("5.9-4"), None))
    );
    assert_eq!(
        parse_log_line(&line("reinstalled zsh (5.9-4)")),
        Some(entry(T, "reinstalled", "zsh", Some("5.9-4"), Some("5.9-4")))
    );
    assert_eq!(
        parse_log_line("[2024-01-01 10:00] [PACMAN] Upgraded  linux  ( 1 -> 2 )"),
        Some(entry("2024-01-01 10:00", "upgraded", "linux", Some("1"), Some("2")))
    );
    assert_eq!(
        parse_log_line(&line("upgraded linux (6.7)")),
        Some(entry(T, "upgraded", "linux", None, None))
    );
    assert_eq!(
        parse_log_line(&line("installed a (b) (1-1)")),
        Some(entry(T, "installed", "a", None, Some("b) (1-1")))
    );
}

#[test]
fn lines_that_report_no_operation_give_nothing() {
    for text in [
        "",
        "no bracket",
        "[unclosed",
        "[t]",
        "[t] ",
        "[t] [ALPM]",
        "[t] [ALPM] ",
        "[t] [ALPM]   ",
        "[t] [ALPM-SCRIPTLET] installed x (1)",
        "[t] [OTHER] installed x (1)",
        "[t] [ALPM] transaction started",
        "[t] [ALPM] installed",
        "[t] [ALPM] installed x",
        "[t] [ALPM] installed x 1)",
        "[t] [ALPM] installed x (1",
        "[t] [ALPM] installed )x(",
        "[t] [PACMAN] Running 'pacman -Syu'",
        "[t] [ALPM] warning: x installed as y.pacnew (1)",
        "[t][ALPM] installed x (1)",
    ] {
        assert_eq!(parse_log_line(text), None, "{:?}", text);
    }
    assert_eq!(parse_action("installed"), None);
    assert_eq!(parse_action(""), None);
    let a = parse_action("INSTALLED x (1)").unwrap();
    assert_eq!((a.action.as_str(), a.package.as_str()), ("installed", "x"));
    assert_eq!(a.new_version.as_deref(), Some("1"));
    assert_eq!(a.old_version, None);
}

fn log() -> Vec<String> {
    vec![
        line("installed a (1)"),
        s("[x] [ALPM] transaction completed"),
        line("upgraded b (1 -> 2)"),
        line("removed c (3)"),
        line("downgraded d (2 -> 1)"),
        line("upgraded e (5 -> 6)"),
        line("reinstalled f (7)"),
    ]
}

#[test]
fn history_is_newest_first_and_counts_every_operation() {
    let (entries, counts) = read_log_forward(&log(), None);
    let names: Vec<&str> = entries.iter().map(|e| e.package.as_str()).collect();
    assert_eq!(names, vec!["f", "e", "d", "c", "b", "a"]);
    assert_eq!(counts, LogCounts { upgraded: 2, installed: 1, removed: 1, other: 2 });
    for (filter, want) in [
        (Some("upgraded"), vec!["e", "b"]),
        (Some("installed"), vec!["a"]),
        (Some("removed"), vec!["c"]),
        (Some("anything"), vec!["f", "e", "d", "c", "b", "a"]),
    ] {
        let (entries, counts) = read_log_forward(&log(), filter);
        let names: Vec<&str> = entries.iter().map(|e| e.package.as_str()).collect();
        assert_eq!(names, want);
        assert_eq!(counts, LogCounts { upgraded: 2, installed: 1, removed: 1, other: 2 });
    }
    assert!(matches_filter("uninstalled", Some("removed")));
    assert!(!matches_filter("upgraded", Some("removed")));
    assert!(matches_filter("x", None));
}

#[test]
fn history_pages() {
    let r = get_history(&log(), 1, 2, None);
    assert_eq!(r.total, 6);
    let names: Vec<&str> = r.entries.iter().map(|e| e.package.as_str()).collect();
    assert_eq!(names, vec!["e", "d"]);
    assert_eq!((r.total_upgraded, r.total_installed, r.total_removed, r.total_other), (2, 1, 1, 2));
    assert_eq!(get_history(&log(), 5, 10, None).entries.len(), 1);
    assert_eq!(get_history(&log(), 6, 10, None).entries.len(), 0);
    assert_eq!(get_history(&log(), 60, 10, None).entries.len(), 0);
    assert_eq!(get_history(&log(), 0, 0, None).entries.len(), 0);
    assert_eq!(get_history(&log(), 0, usize::MAX, Some("upgraded")).total, 2);
    assert_eq!(get_history(&vec![], 0, 10, None).total, 0);
    let (entries, _) = read_log_forward(&log(), None);
    assert_eq!(paginate(entries.clone(), 2, usize::MAX).len(), 4);
    assert_eq!(paginate(entries.clone(), usize::MAX, 1).len(), 0);
    let back = reversed(entries.clone());
    assert_eq!(back.first(), entries.last());
    assert_eq!(reversed(back), entries);
}

#[test]
fn large_logs_are_read_from_the_end() {
    assert!(read_from_end(10 * 1024 * 1024 + 1, 0, 1000));
    assert!(read_from_end(u64::MAX, 999, 1));
    assert!(!read_from_end(10 * 1024 * 1024, 0, 10));
    assert!(!read_from_end(u64::MAX, 0, 1001));
    assert!(!read_from_end(u64::MAX, 1001, 0));
    assert!(!read_from_end(u64::MAX, usize::MAX, usize::MAX));
}

#[test]
fn reverse_scan_stops_when_it_has_enough_and_joins_lines_across_chunks() {
    let text = log().join("\n") + "\n";
    // Split in the middle of a line.
    let cut = text.find("downgraded").unwrap() + 4;
    let (head, tail) = text.split_at(cut);

    let mut scan = ReverseScan::new(10);
    assert!(scan.wants_more());
    scan.feed(tail, false, None);
    assert!(scan.wants_more());
    scan.feed(head, true, None);
    let (entries, counts) = scan.finish(None);
    let names: Vec<&str> = entries.iter().map(|e| e.package.as_str()).collect();
    assert_eq!(names, vec!["a", "b", "c", "d", "e", "f"]);
    assert_eq!(counts, LogCounts { upgraded: 2, installed: 1, removed: 1, other: 2 });

    // With two wanted, the scan stops in the last chunk and counts only what it read.
    let mut scan = ReverseScan::new(2);
    scan.feed(tail, false, None);
    assert!(!scan.wants_more());
    let (entries, counts) = scan.finish(None);
    let names: Vec<&str> = entries.iter().map(|e| e.package.as_str()).collect();
    assert_eq!(names, vec!["e", "f"]);
    assert_eq!(counts, LogCounts { upgraded: 1, installed: 0, removed: 0, other: 1 });

    // A line left over is read at the end where more is wanted.
    let mut scan = ReverseScan::new(10);
    scan.feed(&text, false, Some("installed"));
    let (entries, counts) = scan.finish(Some("installed"));
    assert_eq!(entries.len(), 1);
    assert_eq!(entries[0].package, "a");
    assert_eq!(counts.installed, 1);

    let mut scan = ReverseScan::new(0);
    assert!(!scan.wants_more());
    scan.feed("", true, None);
    assert_eq!(scan.finish(None), (vec![], LogCounts { upgraded: 0, installed: 0, removed: 0, other: 0 }));
}

#[test]
fn a_page_of_found_operations_reports_their_number_and_the_counts() {
    let found = vec![
        entry("2024-01-01T10:00:00+0000", "installed", "a", None, Some("1.0-1")),
        entry("2024-01-02T10:00:00+0000", "upgraded", "b", Some("1.0-1"), Some("1.1-1")),
        entry("2024-01-03T10:00:00+0000", "removed", "c", Some("2.0-1"), None),
    ];
    let counts = LogCounts { upgraded: 4, installed: 3, removed: 2, other: 1 };

    let page = history_page(found.clone(), counts, 1, 1);
    assert_eq!(page.entries, vec![found[1].clone()]);
    assert_eq!(page.total, 3);
    assert_eq!(
        (page.total_upgraded, page.total_installed, page.total_removed, page.total_other),
        (4, 3, 2, 1)
    );

    let past_the_end = history_page(found.clone(), counts, 5, 10);
    assert!(past_the_end.entries.is_empty());
    assert_eq!(past_the_end.total, 3);

    let whole = history_page(found.clone(), counts, 0, usize::MAX);
    assert_eq!(whole.entries, found);
}
