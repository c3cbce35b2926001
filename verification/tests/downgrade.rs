use cockpit_pacman_backend::downgrade::{
    announce, downgrade_package, find_package_file, list_downgrades, output_record, past_deadline,
    CachedVersion, ChildState, PollAction,
};
use cockpit_pacman_backend::events::StreamEvent;

fn s(t: &str) -> String {
    t.to_string()
}

fn complete(success: bool, message: &str) -> StreamEvent {
    StreamEvent::Complete { success, message: Some(s(message)) }
}

#[test]
fn package_file_is_the_first_that_names_package_and_version() {
    let files = vec![
        s("bash-5.2-1-x86_64.pkg.tar.zst.sig"),
        s("bash-5.1-1-x86_64.pkg.tar.zst"),
        s("bash-5.2-1-x86_64.pkg.tar.xz"),
        s("bash-5.2-1-any.pkg.tar.zst"),
        s("bash-completion-5.2-1-any.pkg.tar.zst"),
    ];
    assert_eq!(find_package_file(&files, "bash", "5.2-1"), Ok(s("bash-5.2-1-x86_64.pkg.tar.xz")));
    assert_eq!(find_package_file(&files, "bash", "5.1-1"), Ok(s("bash-5.1-1-x86_64.pkg.tar.zst")));
    assert_eq!(
        find_package_file(&files, "bash", "5.3-1"),
        Err(s("Package file not found in cache: bash-5.3-1"))
    );
    assert_eq!(
        find_package_file(&vec![], "zsh", "1-1"),
        Err(s("Package file not found in cache: zsh-1-1"))
    );
}

#[test]
fn announcement_and_output_lines() {
    assert_eq!(
        announce("bash", "5.1-1", "/var/cache/pacman/pkg/bash-5.1-1-x86_64.pkg.tar.zst", 300),
        vec![
            StreamEvent::Event { event: s("Downgrading bash to version 5.1-1"), package: Some(s("bash")) },
            StreamEvent::Log {
                level: s("info"),
                message: s("Running: pacman -U --noconfirm /var/cache/pacman/pkg/bash-5.1-1-x86_64.pkg.tar.zst (timeout: 300s)"),
            },
        ]
    );
    assert_eq!(output_record("", false), None);
    assert_eq!(output_record(" \t", true), None);
    assert_eq!(
        output_record(" loading packages... ", false),
        Some(StreamEvent::Log { level: s("info"), message: s(" loading packages... ") })
    );
    assert_eq!(
        output_record("warning: downgrading", true),
        Some(StreamEvent::Log { level: s("warning"), message: s("warning: downgrading") })
    );
}

#[test]
fn poll_looks_at_the_flag_then_the_clock_then_the_child() {
    let running = ChildState::Running;
    let ok = ChildState::Exited { success: true, code: Some(0) };
    assert_eq!(downgrade_package(&running, false, 0, 300, "bash", "5.1-1"), PollAction::Wait);
    assert_eq!(
        downgrade_package(&ok, true, 0, 300, "bash", "5.1-1"),
        PollAction::Kill(complete(false, "Operation cancelled by user"))
    );
    assert_eq!(
        downgrade_package(&ok, false, 300_001, 300, "bash", "5.1-1"),
        PollAction::Kill(complete(false, "Operation timed out after 300 seconds"))
    );
    assert_eq!(
        downgrade_package(&ok, true, 300_001, 300, "bash", "5.1-1"),
        PollAction::Kill(complete(false, "Operation cancelled by user"))
    );
    // The time is up only when more than the time allowed has passed.
    assert_eq!(
        downgrade_package(&ok, false, 300_000, 300, "bash", "5.1-1"),
        PollAction::Finish(complete(true, "Successfully downgraded bash to 5.1-1"), Ok(()))
    );
    assert_eq!(
        downgrade_package(&ChildState::Exited { success: false, code: Some(1) }, false, 5, 300, "bash", "5.1-1"),
        PollAction::Finish(complete(false, "Failed to downgrade bash: exit code 1"), Ok(()))
    );
    assert_eq!(
        downgrade_package(&ChildState::Exited { success: false, code: None }, false, 5, 300, "bash", "5.1-1"),
        PollAction::Finish(complete(false, "Failed to downgrade bash: exit code -1"), Ok(()))
    );
    assert_eq!(
        downgrade_package(&ChildState::Unknown(s("no child")), false, 5, 300, "bash", "5.1-1"),
        PollAction::Finish(complete(false, "Failed to check process status: no child"), Err(s("no child")))
    );
    assert!(!past_deadline(0, 0));
    assert!(past_deadline(1, 0));
    assert!(!past_deadline(u64::MAX, u64::MAX));
    assert!(past_deadline(u64::MAX, 18446744073709551));
    assert!(!past_deadline(18446744073709551000, 18446744073709551));
}

#[test]
fn downgrades_are_listed_for_the_package_asked_for() {
    let entry = |name: &str, version: &str| CachedVersion {
        name: s(name),
        version: s(version),
        filename: format!("{}-{}-any.pkg.tar.zst", name, version),
        size: 10,
        installed_version: Some(s("2-1")),
        is_older: version < "2-1",
    };
    let all = vec![entry("bash", "1-1"), entry("zsh", "1-1"), entry("bash", "3-1")];
    let r = list_downgrades(all.clone(), None);
    assert_eq!(r.total, 3);
    assert_eq!(r.packages, all);
    let r = list_downgrades(all.clone(), Some("bash"));
    assert_eq!(r.total, 2);
    assert_eq!(r.packages, vec![entry("bash", "1-1"), entry("bash", "3-1")]);
    let r = list_downgrades(all, Some("fish"));
    assert_eq!(r.total, 0);
    assert!(r.packages.is_empty());
}
