use cockpit_pacman_backend::config::{AppConfig, ScheduleMode};
use cockpit_pacman_backend::engine::{
    Directive, EngineCommand, EngineReply, InstalledPackage, PackageReason, Step, TransactionPlan,
    UpdateInfo,
};
use cockpit_pacman_backend::events::StreamEvent;
use cockpit_pacman_backend::orphans::{
    find_orphans, orphaned, removal_error, remove_orphans, OrphanRun,
};
use cockpit_pacman_backend::preflight::{preflight_upgrade, PreflightResponse, PreflightRun};
use cockpit_pacman_backend::questions::{
    ConflictInfo, KeyInfo, ProviderChoice, Question, ReplacementInfo,
};
use cockpit_pacman_backend::scheduled::{scheduled_run, ScheduledRun, ScheduledRunEntry};
use cockpit_pacman_backend::sync::{repo_map_is_stale, sync_database, SyncRun};
use cockpit_pacman_backend::transaction::TransactionGuard;
use cockpit_pacman_backend::upgrade::{run_upgrade, UpgradeRun};

/// An engine that does what a script says and counts what it is asked.
struct FakeEngine {
    fail_open: bool,
    fail_ignore: bool,
    fail_sync: bool,
    fail_init: Option<String>,
    fail_stage: bool,
    fail_prepare: bool,
    fail_commit: Option<String>,
    plan: TransactionPlan,
    installed: Vec<InstalledPackage>,
    updates: Vec<UpdateInfo>,
    stage_questions: Vec<Question>,
    prepare_questions: Vec<Question>,
    /// The flags are raised when the command with this number returns.
    cancel_at: Option<usize>,
    time_out_at: Option<usize>,
    calls: Vec<EngineCommand>,
    in_transaction: bool,
    inits: usize,
    releases: usize,
    commits: usize,
}

impl FakeEngine {
    fn new() -> FakeEngine {
        FakeEngine {
            fail_open: false,
            fail_ignore: false,
            fail_sync: false,
            fail_init: None,
            fail_stage: false,
            fail_prepare: false,
            fail_commit: None,
            plan: TransactionPlan { add_count: 2, remove_count: 0, download_size: 10 },
            installed: vec![],
            updates: vec![],
            stage_questions: vec![],
            prepare_questions: vec![],
            cancel_at: None,
            time_out_at: None,
            calls: vec![],
            in_transaction: false,
            inits: 0,
            releases: 0,
            commits: 0,
        }
    }

    fn flags(&self) -> (bool, bool) {
        let n = self.calls.len();
        (
            self.cancel_at.map_or(false, |at| n >= at),
            self.time_out_at.map_or(false, |at| n >= at),
        )
    }

    fn first_reply(&self) -> EngineReply {
        let (c, t) = self.flags();
        EngineReply::ok(c, t)
    }

    fn perform(&mut self, command: &EngineCommand) -> EngineReply {
        self.calls.push(command.clone());
        let (c, t) = self.flags();
        let failed = |text: &str| EngineReply::failed(text, c, t);
        match command {
            EngineCommand::OpenHandle => {
                if self.fail_open {
                    return failed("Failed to initialize alpm handle");
                }
                EngineReply::ok(c, t)
            }
            EngineCommand::IgnorePackage(_) => {
                if self.fail_ignore {
                    return failed("out of memory");
                }
                EngineReply::ok(c, t)
            }
            EngineCommand::SyncDatabases { .. } => {
                if self.fail_sync {
                    return failed("could not resolve host");
                }
                EngineReply::ok(c, t)
            }
            EngineCommand::ListInstalled => {
                let mut r = EngineReply::ok(c, t);
                r.installed = self.installed.clone();
                r
            }
            EngineCommand::ListUpdates => {
                let mut r = EngineReply::ok(c, t);
                r.updates = self.updates.clone();
                r
            }
            EngineCommand::InitTransaction { .. } => {
                assert!(!self.in_transaction, "a transaction is already open");
                if let Some(e) = &self.fail_init {
                    return failed(e);
                }
                self.in_transaction = true;
                self.inits += 1;
                EngineReply::ok(c, t)
            }
            EngineCommand::StageUpgrade { .. } | EngineCommand::StageRemoval(_) => {
                assert!(self.in_transaction, "staged without a transaction");
                let mut r = if self.fail_stage { failed("stage failed") } else { EngineReply::ok(c, t) };
                r.questions = self.stage_questions.clone();
                r
            }
            EngineCommand::Prepare => {
                assert!(self.in_transaction, "prepared without a transaction");
                let mut r =
                    if self.fail_prepare { failed("could not satisfy dependencies") } else { EngineReply::ok(c, t) };
                r.plan = self.plan;
                r.questions = self.prepare_questions.clone();
                r
            }
            EngineCommand::Commit => {
                assert!(self.in_transaction, "committed without a transaction");
                self.commits += 1;
                match &self.fail_commit {
                    Some(e) => failed(e),
                    None => EngineReply::ok(c, t),
                }
            }
            EngineCommand::Release => {
                assert!(self.in_transaction, "released without a transaction");
                self.in_transaction = false;
                self.releases += 1;
                EngineReply::ok(c, t)
            }
        }
    }
}

struct Outcome {
    records: Vec<StreamEvent>,
    result: Result<(), String>,
}

fn finish(engine: &FakeEngine, records: Vec<StreamEvent>, result: Result<(), String>) -> Outcome {
    assert!(!engine.in_transaction, "the operation ended with its transaction open");
    assert_eq!(engine.releases, engine.inits);
    assert!(engine.inits <= 1);
    Outcome { records, result }
}

fn drive_upgrade(engine: &mut FakeEngine, ignore: Vec<String>, timeout: Option<u64>) -> Outcome {
    let mut run = UpgradeRun::new(ignore, timeout);
    let mut reply = engine.first_reply();
    let mut records = vec![];
    for _ in 0..1000 {
        let (next, Step { emit, next: directive }) = run_upgrade(run, &reply);
        run = next;
        records.extend(emit);
        match directive {
            Directive::Run(command) => reply = engine.perform(&command),
            Directive::Exit(result) => {
                assert!(run.is_done());
                return finish(engine, records, result);
            }
        }
    }
    panic!("the upgrade did not end");
}

fn drive_orphans(engine: &mut FakeEngine, timeout: Option<u64>) -> Outcome {
    let mut run = OrphanRun::new(timeout);
    let mut reply = engine.first_reply();
    let mut records = vec![];
    for _ in 0..1000 {
        let (next, Step { emit, next: directive }) = remove_orphans(run, &reply);
        run = next;
        records.extend(emit);
        match directive {
            Directive::Run(command) => reply = engine.perform(&command),
            Directive::Exit(result) => {
                assert!(run.is_done());
                return finish(engine, records, result);
            }
        }
    }
    panic!("the removal did not end");
}

fn drive_sync(engine: &mut FakeEngine, force: bool, timeout: Option<u64>) -> Outcome {
    let mut run = SyncRun::new(force, timeout);
    let mut reply = engine.first_reply();
    let mut records = vec![];
    for _ in 0..1000 {
        let (next, Step { emit, next: directive }) = sync_database(run, &reply);
        run = next;
        records.extend(emit);
        match directive {
            Directive::Run(command) => reply = engine.perform(&command),
            Directive::Exit(result) => {
                assert!(run.is_done());
                return finish(engine, records, result);
            }
        }
    }
    panic!("the refresh did not end");
}

fn drive_preflight(engine: &mut FakeEngine, ignore: Vec<String>) -> PreflightResponse {
    let mut run = PreflightRun::new(ignore);
    let mut reply = engine.first_reply();
    for _ in 0..1000 {
        let (next, Step { emit, next: directive }) = preflight_upgrade(run, &reply);
        run = next;
        assert!(emit.is_empty());
        match directive {
            Directive::Run(command) => reply = engine.perform(&command),
            Directive::Exit(result) => {
                assert_eq!(result, Ok(()));
                assert!(run.is_done());
                finish(engine, vec![], Ok(()));
                assert_eq!(engine.commits, 0);
                return run.into_response().expect("a dry run that has ended has a report");
            }
        }
    }
    panic!("the dry run did not end");
}

fn drive_scheduled(engine: &mut FakeEngine, config: &AppConfig) -> (Option<ScheduledRunEntry>, Result<(), String>) {
    let mut run = ScheduledRun::new(config, "2024-01-01T00:00:00+0000".to_string());
    let mut reply = engine.first_reply();
    for _ in 0..1000 {
        let (next, Step { emit, next: directive }) = scheduled_run(run, &reply);
        run = next;
        assert!(emit.is_empty());
        match directive {
            Directive::Run(command) => reply = engine.perform(&command),
            Directive::Exit(result) => {
                assert!(run.is_done());
                finish(engine, vec![], Ok(()));
                return (run.into_entry(), result);
            }
        }
    }
    panic!("the unattended run did not end");
}

fn complete(success: bool, message: &str) -> StreamEvent {
    StreamEvent::Complete { success, message: Some(message.to_string()) }
}

fn assert_finished_stream(records: &[StreamEvent]) {
    let terminal = records.iter().filter(|r| matches!(r, StreamEvent::Complete { .. })).count();
    assert_eq!(terminal, 1, "{:?}", records);
    assert!(matches!(records.last(), Some(StreamEvent::Complete { .. })));
}

#[test]
fn upgrade_with_nothing_to_do_reports_up_to_date_and_never_commits() {
    let mut engine = FakeEngine::new();
    engine.plan = TransactionPlan { add_count: 0, remove_count: 0, download_size: 0 };
    let out = drive_upgrade(&mut engine, vec![], None);
    assert_eq!(
        engine.calls,
        vec![
            EngineCommand::OpenHandle,
            EngineCommand::InitTransaction { recurse: false },
            EngineCommand::StageUpgrade { allow_downgrade: false },
            EngineCommand::Prepare,
            EngineCommand::Release,
        ]
    );
    assert_eq!(engine.commits, 0);
    assert_eq!(out.records, vec![complete(true, "System is up to date")]);
    assert_eq!(out.result, Ok(()));
}

#[test]
fn upgrade_interrupted_during_commit_reports_inconsistent_state_and_fails() {
    let mut engine = FakeEngine::new();
    engine.fail_commit = Some("interrupted by signal".to_string());
    // The flag goes up while the fifth command, the commit, runs.
    engine.cancel_at = Some(5);
    let out = drive_upgrade(&mut engine, vec![], Some(120));
    assert_eq!(engine.commits, 1);
    assert_eq!(engine.releases, 1);
    assert_eq!(out.records.len(), 1);
    match &out.records[0] {
        StreamEvent::Complete { success, message } => {
            assert!(!success);
            assert!(message.as_ref().unwrap().contains("inconsistent state"));
        }
        other => panic!("unexpected record {:?}", other),
    }
    assert_eq!(
        out.records,
        vec![complete(false, "Operation interrupted - system may be in inconsistent state")]
    );
    assert_eq!(out.result, Err("Failed to commit transaction: interrupted by signal".to_string()));
}

#[test]
fn upgrade_runs_every_phase_in_order_and_succeeds() {
    let mut engine = FakeEngine::new();
    let out = drive_upgrade(&mut engine, vec!["linux".to_string(), "glibc".to_string()], None);
    assert_eq!(
        engine.calls,
        vec![
            EngineCommand::OpenHandle,
            EngineCommand::IgnorePackage("linux".to_string()),
            EngineCommand::IgnorePackage("glibc".to_string()),
            EngineCommand::InitTransaction { recurse: false },
            EngineCommand::StageUpgrade { allow_downgrade: false },
            EngineCommand::Prepare,
            EngineCommand::Commit,
            EngineCommand::Release,
        ]
    );
    assert_eq!(out.records, vec![StreamEvent::Complete { success: true, message: None }]);
    assert_eq!(out.result, Ok(()));
}

#[test]
fn upgrade_with_only_removals_is_committed() {
    let mut engine = FakeEngine::new();
    engine.plan = TransactionPlan { add_count: 0, remove_count: 1, download_size: 0 };
    let out = drive_upgrade(&mut engine, vec![], None);
    assert_eq!(engine.commits, 1);
    assert_eq!(out.result, Ok(()));
}

#[test]
fn transaction_is_released_exactly_once_whatever_fails() {
    // Every combination of success and failure of init, stage, prepare and commit,
    // with and without a flag raised at each possible moment.
    for mask in 0..16u32 {
        for raise in 0..10usize {
            for which in 0..3 {
                let mut engine = FakeEngine::new();
                engine.fail_init = if mask & 1 != 0 { Some("unable to lock database".to_string()) } else { None };
                engine.fail_stage = mask & 2 != 0;
                engine.fail_prepare = mask & 4 != 0;
                engine.fail_commit = if mask & 8 != 0 { Some("disk full".to_string()) } else { None };
                match which {
                    0 => {}
                    1 => engine.cancel_at = Some(raise),
                    _ => engine.time_out_at = Some(raise),
                }
                let out = drive_upgrade(&mut engine, vec!["a".to_string()], Some(60));
                let expected = if mask & 1 != 0 || engine.inits == 0 { 0 } else { 1 };
                assert_eq!(engine.releases, expected, "mask {} raise {} which {}", mask, raise, which);
                assert_finished_stream(&out.records);
                // Nothing is asked of the engine once the transaction is given up.
                if let Some(at) = engine.calls.iter().position(|c| *c == EngineCommand::Release) {
                    assert_eq!(at, engine.calls.len() - 1);
                }

                let mut engine2 = FakeEngine::new();
                engine2.installed = vec![orphan("a"), orphan("b")];
                engine2.plan = TransactionPlan { add_count: 0, remove_count: 2, download_size: 0 };
                engine2.fail_init = if mask & 1 != 0 { Some("busy".to_string()) } else { None };
                engine2.fail_stage = mask & 2 != 0;
                engine2.fail_prepare = mask & 4 != 0;
                engine2.fail_commit = if mask & 8 != 0 { Some("disk full".to_string()) } else { None };
                match which {
                    0 => {}
                    1 => engine2.cancel_at = Some(raise),
                    _ => engine2.time_out_at = Some(raise),
                }
                let out = drive_orphans(&mut engine2, Some(60));
                assert_finished_stream(&out.records);

                let mut engine3 = FakeEngine::new();
                engine3.fail_init = if mask & 1 != 0 { Some("busy".to_string()) } else { None };
                engine3.fail_stage = mask & 2 != 0;
                engine3.fail_prepare = mask & 4 != 0;
                drive_preflight(&mut engine3, vec![]);

                let mut engine4 = FakeEngine::new();
                engine4.updates = vec![update("a", "2")];
                engine4.fail_init = if mask & 1 != 0 { Some("busy".to_string()) } else { None };
                engine4.fail_stage = mask & 2 != 0;
                engine4.fail_prepare = mask & 4 != 0;
                engine4.fail_commit = if mask & 8 != 0 { Some("disk full".to_string()) } else { None };
                match which {
                    0 => {}
                    1 => engine4.cancel_at = Some(raise),
                    _ => engine4.time_out_at = Some(raise),
                }
                let mut config = AppConfig::default();
                config.schedule.enabled = true;
                drive_scheduled(&mut engine4, &config);
            }
        }
    }
}

#[test]
fn guard_hands_the_release_out_once() {
    let mut guard = TransactionGuard::new(&None).unwrap();
    assert!(guard.holds());
    assert_eq!(guard.prepare(), EngineCommand::Prepare);
    assert_eq!(guard.commit(), EngineCommand::Commit);
    assert_eq!(guard.sync_sysupgrade(true), EngineCommand::StageUpgrade { allow_downgrade: true });
    assert_eq!(guard.remove_pkg("x"), EngineCommand::StageRemoval("x".to_string()));
    assert_eq!(guard.release(), Some(EngineCommand::Release));
    assert!(!guard.holds());
    assert_eq!(guard.release(), None);
    assert_eq!(guard.release(), None);
    let mut vacant = TransactionGuard::vacant();
    assert!(!vacant.holds());
    assert_eq!(vacant.release(), None);
}

#[test]
fn a_locked_database_is_reported_as_locked() {
    let error = TransactionGuard::new(&Some("unable to lock database".to_string())).unwrap_err();
    assert_eq!(error.code, cockpit_pacman_backend::errors::ErrorCode::DatabaseLocked);
    assert_eq!(
        error.message,
        "Unable to lock database. Another package manager operation is in progress."
    );
    let error = TransactionGuard::new(&Some("bad handle".to_string())).unwrap_err();
    assert_eq!(error.code, cockpit_pacman_backend::errors::ErrorCode::TransactionFailed);
    assert_eq!(error.message, "Failed to initialize transaction: bad handle");

    let mut engine = FakeEngine::new();
    engine.fail_init = Some("unable to lock database".to_string());
    let out = drive_upgrade(&mut engine, vec![], None);
    assert_eq!(
        out.records,
        vec![complete(
            false,
            "Unable to lock database. Another package manager operation is in progress."
        )]
    );
    assert!(out.result.is_err());
    assert_eq!(engine.releases, 0);
}

#[test]
fn upgrade_stops_at_each_boundary_when_cancelled() {
    // The flag is seen when the command with the given number has returned.
    let expectations: Vec<(usize, Vec<EngineCommand>)> = vec![
        (0, vec![EngineCommand::OpenHandle]),
        (1, vec![EngineCommand::OpenHandle]),
        (
            2,
            vec![
                EngineCommand::OpenHandle,
                EngineCommand::InitTransaction { recurse: false },
                EngineCommand::Release,
            ],
        ),
        (
            3,
            vec![
                EngineCommand::OpenHandle,
                EngineCommand::InitTransaction { recurse: false },
                EngineCommand::StageUpgrade { allow_downgrade: false },
                EngineCommand::Release,
            ],
        ),
        (
            4,
            vec![
                EngineCommand::OpenHandle,
                EngineCommand::InitTransaction { recurse: false },
                EngineCommand::StageUpgrade { allow_downgrade: false },
                EngineCommand::Prepare,
                EngineCommand::Release,
            ],
        ),
    ];
    for (at, calls) in expectations {
        let mut engine = FakeEngine::new();
        engine.cancel_at = Some(at);
        let out = drive_upgrade(&mut engine, vec![], None);
        assert_eq!(engine.calls, calls, "cancelled at {}", at);
        assert_eq!(out.records, vec![complete(false, "Operation cancelled by user")]);
        assert_eq!(out.result, Ok(()));
        assert_eq!(engine.commits, 0);

        let mut engine = FakeEngine::new();
        engine.time_out_at = Some(at);
        let out = drive_upgrade(&mut engine, vec![], Some(7));
        assert_eq!(out.records, vec![complete(false, "Operation timed out after 7 seconds")]);
        assert_eq!(out.result, Ok(()));
        assert_eq!(engine.commits, 0);
    }
}

#[test]
fn upgrade_reports_each_failure_with_its_text() {
    let mut engine = FakeEngine::new();
    engine.fail_open = true;
    let out = drive_upgrade(&mut engine, vec![], None);
    assert_eq!(out.records, vec![complete(false, "Failed to initialize alpm handle")]);
    assert_eq!(out.result, Err("Failed to initialize alpm handle".to_string()));

    let mut engine = FakeEngine::new();
    engine.fail_ignore = true;
    let out = drive_upgrade(&mut engine, vec!["linux".to_string()], None);
    assert_eq!(out.records, vec![complete(false, "Failed to ignore package linux: out of memory")]);
    assert_eq!(out.result, Err("out of memory".to_string()));

    let mut engine = FakeEngine::new();
    engine.fail_stage = true;
    let out = drive_upgrade(&mut engine, vec![], None);
    assert_eq!(out.records, vec![complete(false, "Failed to prepare system upgrade: stage failed")]);
    assert_eq!(out.result, Err("stage failed".to_string()));

    let mut engine = FakeEngine::new();
    engine.fail_prepare = true;
    let out = drive_upgrade(&mut engine, vec![], None);
    assert_eq!(
        out.records,
        vec![complete(false, "Failed to prepare transaction: could not satisfy dependencies")]
    );
    assert_eq!(
        out.result,
        Err("Failed to prepare transaction: could not satisfy dependencies".to_string())
    );

    let mut engine = FakeEngine::new();
    engine.fail_commit = Some("disk full".to_string());
    let out = drive_upgrade(&mut engine, vec![], None);
    assert_eq!(out.records, vec![complete(false, "Failed to commit transaction: disk full")]);
    assert_eq!(out.result, Err("Failed to commit transaction: disk full".to_string()));

    let mut engine = FakeEngine::new();
    engine.fail_commit = Some("disk full".to_string());
    engine.time_out_at = Some(5);
    let out = drive_upgrade(&mut engine, vec![], Some(90));
    assert_eq!(
        out.records,
        vec![complete(
            false,
            "Operation timed out after 90 seconds - system may be in inconsistent state"
        )]
    );
    assert_eq!(out.result, Err("Failed to commit transaction: disk full".to_string()));
}

fn package(name: &str, reason: PackageReason, required_by: &[&str], optional_for: &[&str]) -> InstalledPackage {
    InstalledPackage {
        name: name.to_string(),
        reason,
        required_by: required_by.iter().map(|s| s.to_string()).collect(),
        optional_for: optional_for.iter().map(|s| s.to_string()).collect(),
    }
}

fn orphan(name: &str) -> InstalledPackage {
    package(name, PackageReason::Depend, &[], &[])
}

fn update(name: &str, version: &str) -> UpdateInfo {
    UpdateInfo {
        name: name.to_string(),
        current_version: "1".to_string(),
        new_version: version.to_string(),
        download_size: 1,
        current_size: 1,
        new_size: 1,
        repository: "core".to_string(),
    }
}

#[test]
fn orphans_are_dependencies_that_nothing_needs() {
    assert!(orphaned(&package("a", PackageReason::Depend, &[], &[])));
    assert!(!orphaned(&package("a", PackageReason::Depend, &["b"], &[])));
    assert!(!orphaned(&package("a", PackageReason::Explicit, &["b"], &[])));
    assert!(!orphaned(&package("a", PackageReason::Depend, &[], &["c"])));
    assert!(!orphaned(&package("a", PackageReason::Explicit, &[], &[])));
    let packages = vec![
        package("kept", PackageReason::Explicit, &[], &[]),
        orphan("zlib-old"),
        package("needed", PackageReason::Depend, &["kept"], &[]),
        orphan("abc"),
        package("useful", PackageReason::Depend, &[], &["kept"]),
    ];
    assert_eq!(find_orphans(&packages), vec!["zlib-old".to_string(), "abc".to_string()]);
    assert_eq!(find_orphans(&vec![]), Vec::<String>::new());
}

#[test]
fn removal_stages_exactly_the_orphans_and_reports_their_number() {
    let mut engine = FakeEngine::new();
    engine.installed = vec![
        orphan("a"),
        package("b", PackageReason::Explicit, &[], &[]),
        orphan("c"),
        orphan("d"),
    ];
    engine.plan = TransactionPlan { add_count: 0, remove_count: 3, download_size: 0 };
    let out = drive_orphans(&mut engine, None);
    assert_eq!(
        engine.calls,
        vec![
            EngineCommand::OpenHandle,
            EngineCommand::ListInstalled,
            EngineCommand::InitTransaction { recurse: true },
            EngineCommand::StageRemoval("a".to_string()),
            EngineCommand::StageRemoval("c".to_string()),
            EngineCommand::StageRemoval("d".to_string()),
            EngineCommand::Prepare,
            EngineCommand::Commit,
            EngineCommand::Release,
        ]
    );
    assert_eq!(out.records, vec![complete(true, "Removed 3 orphan package(s)")]);
    assert_eq!(out.result, Ok(()));
}

#[test]
fn removal_without_orphans_starts_no_transaction() {
    let mut engine = FakeEngine::new();
    engine.installed = vec![package("b", PackageReason::Explicit, &[], &[])];
    let out = drive_orphans(&mut engine, None);
    assert_eq!(engine.calls, vec![EngineCommand::OpenHandle, EngineCommand::ListInstalled]);
    assert_eq!(out.records, vec![complete(true, "No orphan packages to remove")]);
    assert_eq!(out.result, Ok(()));
}

#[test]
fn removal_warns_of_packages_that_cannot_be_staged_and_goes_on() {
    let mut engine = FakeEngine::new();
    engine.installed = vec![orphan("a"), orphan("b")];
    engine.fail_stage = true;
    engine.plan = TransactionPlan { add_count: 0, remove_count: 0, download_size: 0 };
    let out = drive_orphans(&mut engine, None);
    assert_eq!(
        out.records,
        vec![
            StreamEvent::Log {
                level: "warning".to_string(),
                message: "Failed to mark a for removal: stage failed".to_string(),
            },
            StreamEvent::Log {
                level: "warning".to_string(),
                message: "Failed to mark b for removal: stage failed".to_string(),
            },
            complete(true, "No packages to remove"),
        ]
    );
    assert_eq!(engine.commits, 0);
    assert_eq!(engine.releases, 1);
}

#[test]
fn removal_classifies_a_failed_commit() {
    let mut engine = FakeEngine::new();
    engine.installed = vec![orphan("a")];
    engine.plan = TransactionPlan { add_count: 0, remove_count: 1, download_size: 0 };
    engine.fail_commit = Some("Transaction CANCELLED".to_string());
    let out = drive_orphans(&mut engine, None);
    assert_eq!(out.records, vec![complete(false, "Operation interrupted")]);
    assert_eq!(out.result, Err("Failed to commit transaction: Transaction CANCELLED".to_string()));

    let mut engine = FakeEngine::new();
    engine.installed = vec![orphan("a")];
    engine.plan = TransactionPlan { add_count: 0, remove_count: 1, download_size: 0 };
    engine.fail_commit = Some("no space".to_string());
    engine.time_out_at = Some(6);
    let out = drive_orphans(&mut engine, Some(33));
    assert_eq!(out.records, vec![complete(false, "Operation timed out after 33 seconds")]);
    assert!(out.result.is_err());
}

#[test]
fn sync_reports_success_failure_and_flags() {
    let mut engine = FakeEngine::new();
    let out = drive_sync(&mut engine, true, None);
    assert_eq!(
        engine.calls,
        vec![EngineCommand::OpenHandle, EngineCommand::SyncDatabases { force: true }]
    );
    assert_eq!(out.records, vec![StreamEvent::Complete { success: true, message: None }]);
    assert_eq!(out.result, Ok(()));

    let mut engine = FakeEngine::new();
    engine.fail_sync = true;
    let out = drive_sync(&mut engine, false, None);
    assert_eq!(out.records, vec![complete(false, "could not resolve host")]);
    assert_eq!(out.result, Err("could not resolve host".to_string()));

    // A flag that is up before anything starts ends the run at once.
    let mut engine = FakeEngine::new();
    engine.cancel_at = Some(0);
    let out = drive_sync(&mut engine, false, None);
    assert!(engine.calls.is_empty());
    assert_eq!(out.records, vec![complete(false, "Operation cancelled by user")]);
    assert_eq!(out.result, Ok(()));

    // A flag that goes up during the refresh outranks its outcome.
    let mut engine = FakeEngine::new();
    engine.fail_sync = true;
    engine.time_out_at = Some(2);
    let out = drive_sync(&mut engine, false, Some(5));
    assert_eq!(out.records, vec![complete(false, "Operation timed out after 5 seconds")]);
    assert_eq!(out.result, Ok(()));
}

fn questions() -> (Vec<Question>, Vec<Question>) {
    (
        vec![
            Question::Replace { old_package: "old".to_string(), new_package: "new".to_string() },
            Question::InstallIgnorepkg { package: "held".to_string() },
        ],
        vec![
            Question::Conflict { package1: "a".to_string(), package2: "b".to_string() },
            Question::RemovePkgs { packages: vec!["x".to_string(), "y".to_string()] },
            Question::Corrupted { filepath: "/tmp/p".to_string() },
            Question::SelectProvider {
                dependency: "sh".to_string(),
                providers: vec!["bash".to_string(), "dash".to_string()],
            },
            Question::ImportKey { fingerprint: "ABCD".to_string(), uid: "dev".to_string() },
            Question::Conflict { package1: "c".to_string(), package2: "d".to_string() },
            Question::RemovePkgs { packages: vec!["z".to_string()] },
        ],
    )
}

#[test]
fn preflight_reports_every_question_in_order_and_never_commits() {
    let mut engine = FakeEngine::new();
    let (stage, prepare) = questions();
    engine.stage_questions = stage;
    engine.prepare_questions = prepare;
    engine.plan = TransactionPlan { add_count: 4, remove_count: 1, download_size: 1234 };
    let response = drive_preflight(&mut engine, vec!["held".to_string()]);
    assert_eq!(
        engine.calls,
        vec![
            EngineCommand::OpenHandle,
            EngineCommand::IgnorePackage("held".to_string()),
            EngineCommand::InitTransaction { recurse: false },
            EngineCommand::StageUpgrade { allow_downgrade: false },
            EngineCommand::Prepare,
            EngineCommand::Release,
        ]
    );
    assert_eq!(
        response,
        PreflightResponse {
            success: true,
            error: None,
            conflicts: vec![
                ConflictInfo { package1: "a".to_string(), package2: "b".to_string() },
                ConflictInfo { package1: "c".to_string(), package2: "d".to_string() },
            ],
            replacements: vec![ReplacementInfo {
                old_package: "old".to_string(),
                new_package: "new".to_string(),
            }],
            removals: vec!["x".to_string(), "y".to_string(), "z".to_string()],
            providers: vec![ProviderChoice {
                dependency: "sh".to_string(),
                providers: vec!["bash".to_string(), "dash".to_string()],
            }],
            import_keys: vec![KeyInfo { fingerprint: "ABCD".to_string(), uid: "dev".to_string() }],
            packages_to_upgrade: 4,
            total_download_size: 1234,
        }
    );
}

#[test]
fn two_preflights_over_the_same_engine_state_report_the_same() {
    let make = || {
        let mut engine = FakeEngine::new();
        let (stage, prepare) = questions();
        engine.stage_questions = stage;
        engine.prepare_questions = prepare;
        engine
    };
    let first = drive_preflight(&mut make(), vec!["a".to_string()]);
    let second = drive_preflight(&mut make(), vec!["a".to_string()]);
    assert_eq!(first, second);
    assert_eq!(first.conflicts.len(), 2);
}

#[test]
fn preflight_failures_are_reports_not_errors() {
    let empty = PreflightResponse {
        success: false,
        error: None,
        conflicts: vec![],
        replacements: vec![],
        removals: vec![],
        providers: vec![],
        import_keys: vec![],
        packages_to_upgrade: 0,
        total_download_size: 0,
    };
    let mut engine = FakeEngine::new();
    engine.fail_open = true;
    let response = drive_preflight(&mut engine, vec![]);
    assert_eq!(
        response,
        PreflightResponse { error: Some("Failed to initialize alpm handle".to_string()), ..empty.clone() }
    );

    let mut engine = FakeEngine::new();
    engine.fail_init = Some("unable to lock database".to_string());
    let response = drive_preflight(&mut engine, vec![]);
    assert_eq!(
        response.error.as_deref(),
        Some("Unable to lock database. Another package manager operation is in progress.")
    );
    assert!(!response.success);

    let mut engine = FakeEngine::new();
    engine.fail_stage = true;
    let response = drive_preflight(&mut engine, vec![]);
    assert_eq!(
        response,
        PreflightResponse {
            error: Some("Failed to prepare system upgrade: stage failed".to_string()),
            ..empty.clone()
        }
    );

    // A failed resolution still reports what was asked.
    let mut engine = FakeEngine::new();
    engine.fail_prepare = true;
    engine.prepare_questions =
        vec![Question::Conflict { package1: "a".to_string(), package2: "b".to_string() }];
    let response = drive_preflight(&mut engine, vec![]);
    assert_eq!(
        response,
        PreflightResponse {
            error: Some("Failed to prepare transaction".to_string()),
            conflicts: vec![ConflictInfo { package1: "a".to_string(), package2: "b".to_string() }],
            ..empty.clone()
        }
    );

    // Nothing to upgrade and nothing asked: success without lists.
    let mut engine = FakeEngine::new();
    engine.plan = TransactionPlan { add_count: 0, remove_count: 0, download_size: 0 };
    let response = drive_preflight(&mut engine, vec![]);
    assert_eq!(response, PreflightResponse { success: true, ..empty });
}

#[test]
fn preflight_of_a_plan_that_adds_nothing_still_reports_what_was_asked() {
    let mut engine = FakeEngine::new();
    engine.plan = TransactionPlan { add_count: 0, remove_count: 3, download_size: 0 };
    engine.stage_questions = vec![Question::Replace {
        old_package: "old".to_string(),
        new_package: "new".to_string(),
    }];
    engine.prepare_questions = vec![
        Question::Conflict { package1: "a".to_string(), package2: "b".to_string() },
        Question::RemovePkgs { packages: vec!["x".to_string(), "y".to_string()] },
        Question::Corrupted { filepath: "/tmp/broken".to_string() },
    ];
    let response = drive_preflight(&mut engine, vec![]);
    assert_eq!(
        response,
        PreflightResponse {
            success: true,
            error: None,
            conflicts: vec![ConflictInfo { package1: "a".to_string(), package2: "b".to_string() }],
            replacements: vec![ReplacementInfo {
                old_package: "old".to_string(),
                new_package: "new".to_string(),
            }],
            removals: vec!["x".to_string(), "y".to_string()],
            providers: vec![],
            import_keys: vec![],
            packages_to_upgrade: 0,
            total_download_size: 0,
        }
    );
    assert_eq!(engine.releases, 1);
    assert_eq!(engine.commits, 0);
}

fn enabled_config(mode: ScheduleMode, max_packages: usize) -> AppConfig {
    let mut config = AppConfig::default();
    config.schedule.enabled = true;
    config.schedule.mode = mode;
    config.schedule.max_packages = max_packages;
    config
}

fn entry(success: bool, checked: usize, upgraded: usize, error: Option<&str>, details: &[&str], mode: &str) -> ScheduledRunEntry {
    ScheduledRunEntry {
        timestamp: "2024-01-01T00:00:00+0000".to_string(),
        mode: mode.to_string(),
        success,
        packages_checked: checked,
        packages_upgraded: upgraded,
        error: error.map(|s| s.to_string()),
        details: details.iter().map(|s| s.to_string()).collect(),
    }
}

#[test]
fn scheduled_run_does_nothing_where_it_is_not_enabled() {
    let mut engine = FakeEngine::new();
    let (entry, result) = drive_scheduled(&mut engine, &AppConfig::default());
    assert!(engine.calls.is_empty());
    assert_eq!(entry, None);
    assert_eq!(result, Ok(()));
}

#[test]
fn scheduled_run_upgrades_and_logs_what_it_did() {
    let mut engine = FakeEngine::new();
    engine.updates = vec![update("linux", "6.7.1"), update("glibc", "2.39")];
    let mut config = enabled_config(ScheduleMode::Upgrade, 0);
    config.ignored_packages = vec!["zsh".to_string()];
    let (got, result) = drive_scheduled(&mut engine, &config);
    assert_eq!(
        engine.calls,
        vec![
            EngineCommand::OpenHandle,
            EngineCommand::IgnorePackage("zsh".to_string()),
            EngineCommand::SyncDatabases { force: false },
            EngineCommand::ListUpdates,
            EngineCommand::InitTransaction { recurse: false },
            EngineCommand::StageUpgrade { allow_downgrade: false },
            EngineCommand::Prepare,
            EngineCommand::Commit,
            EngineCommand::Release,
        ]
    );
    assert_eq!(result, Ok(()));
    assert_eq!(
        got,
        Some(entry(true, 2, 2, None, &["linux -> 6.7.1", "glibc -> 2.39"], "upgrade"))
    );
}

#[test]
fn scheduled_run_only_lists_in_check_mode_and_respects_the_limit() {
    let mut engine = FakeEngine::new();
    engine.updates = vec![update("linux", "6.7.1")];
    let (got, result) = drive_scheduled(&mut engine, &enabled_config(ScheduleMode::Check, 0));
    assert_eq!(result, Ok(()));
    assert_eq!(got, Some(entry(true, 1, 0, None, &["linux -> 6.7.1"], "check")));
    assert_eq!(engine.inits, 0);

    let mut engine = FakeEngine::new();
    engine.updates = vec![update("a", "2"), update("b", "2"), update("c", "2")];
    let (got, result) = drive_scheduled(&mut engine, &enabled_config(ScheduleMode::Upgrade, 2));
    assert_eq!(result, Ok(()));
    assert_eq!(
        got,
        Some(entry(true, 3, 0, None, &["Skipped: 3 updates exceed safety limit of 2"], "upgrade"))
    );
    assert_eq!(engine.inits, 0);

    // At the limit the run goes on.
    let mut engine = FakeEngine::new();
    engine.updates = vec![update("a", "2"), update("b", "2")];
    let (_, result) = drive_scheduled(&mut engine, &enabled_config(ScheduleMode::Upgrade, 2));
    assert_eq!(result, Ok(()));
    assert_eq!(engine.commits, 1);

    let mut engine = FakeEngine::new();
    let (got, _) = drive_scheduled(&mut engine, &enabled_config(ScheduleMode::Upgrade, 0));
    assert_eq!(got, Some(entry(true, 0, 0, None, &["No updates available"], "upgrade")));
}

#[test]
fn scheduled_run_gives_up_where_a_person_is_needed() {
    let cases: Vec<(Question, &str)> = vec![
        (
            Question::Conflict { package1: "a".to_string(), package2: "b".to_string() },
            "Skipped: manual intervention required (conflicts detected)",
        ),
        (
            Question::RemovePkgs { packages: vec!["x".to_string()] },
            "Skipped: manual intervention required (package removals required)",
        ),
        (
            Question::Replace { old_package: "o".to_string(), new_package: "n".to_string() },
            "Skipped: manual intervention required (package removals required)",
        ),
        (
            Question::ImportKey { fingerprint: "F".to_string(), uid: "u".to_string() },
            "Skipped: manual intervention required (key imports required)",
        ),
    ];
    for (question, line) in cases {
        let mut engine = FakeEngine::new();
        engine.updates = vec![update("a", "2")];
        engine.prepare_questions = vec![question];
        let (got, result) = drive_scheduled(&mut engine, &enabled_config(ScheduleMode::Upgrade, 0));
        assert_eq!(result, Ok(()));
        assert_eq!(got, Some(entry(true, 1, 0, None, &[line], "upgrade")));
        assert_eq!(engine.commits, 0);
        assert_eq!(engine.releases, 1);
    }
    let mut engine = FakeEngine::new();
    engine.updates = vec![update("a", "2")];
    let (stage, prepare) = questions();
    engine.stage_questions = stage;
    engine.prepare_questions = prepare;
    let (got, _) = drive_scheduled(&mut engine, &enabled_config(ScheduleMode::Upgrade, 0));
    assert_eq!(
        got.unwrap().details,
        vec!["Skipped: manual intervention required (conflicts detected, package removals required, key imports required)".to_string()]
    );
    assert_eq!(engine.commits, 0);

    // Questions that the responder decides by itself do not stop the run.
    let mut engine = FakeEngine::new();
    engine.updates = vec![update("a", "2")];
    engine.prepare_questions = vec![
        Question::SelectProvider { dependency: "sh".to_string(), providers: vec!["bash".to_string()] },
        Question::Corrupted { filepath: "f".to_string() },
        Question::InstallIgnorepkg { package: "p".to_string() },
    ];
    let (_, result) = drive_scheduled(&mut engine, &enabled_config(ScheduleMode::Upgrade, 0));
    assert_eq!(result, Ok(()));
    assert_eq!(engine.commits, 1);

    // A resolution that fails counts as a need for a person.
    let mut engine = FakeEngine::new();
    engine.updates = vec![update("a", "2")];
    engine.fail_prepare = true;
    let (got, result) = drive_scheduled(&mut engine, &enabled_config(ScheduleMode::Upgrade, 0));
    assert_eq!(result, Ok(()));
    assert_eq!(
        got,
        Some(entry(true, 1, 0, None, &["Skipped: manual intervention required ()"], "upgrade"))
    );
}

#[test]
fn scheduled_run_logs_failures_and_raised_flags() {
    let stopped = Err("Operation cancelled or timed out".to_string());
    let mut engine = FakeEngine::new();
    engine.cancel_at = Some(0);
    let (got, result) = drive_scheduled(&mut engine, &enabled_config(ScheduleMode::Upgrade, 0));
    assert_eq!(result, stopped);
    assert_eq!(
        got,
        Some(entry(false, 0, 0, Some("Operation cancelled or timed out before starting"), &[], "upgrade"))
    );
    assert!(engine.calls.is_empty());

    let mut engine = FakeEngine::new();
    engine.time_out_at = Some(2);
    let (got, result) = drive_scheduled(&mut engine, &enabled_config(ScheduleMode::Upgrade, 0));
    assert_eq!(result, stopped);
    assert_eq!(
        got,
        Some(entry(false, 0, 0, Some("Operation cancelled or timed out after database sync"), &[], "upgrade"))
    );

    let mut engine = FakeEngine::new();
    engine.updates = vec![update("a", "2")];
    engine.cancel_at = Some(6);
    let (got, result) = drive_scheduled(&mut engine, &enabled_config(ScheduleMode::Upgrade, 0));
    assert_eq!(result, stopped);
    assert_eq!(
        got,
        Some(entry(false, 1, 0, Some("Operation cancelled or timed out before commit"), &["a -> 2"], "upgrade"))
    );
    assert_eq!(engine.commits, 0);
    assert_eq!(engine.releases, 1);

    let mut engine = FakeEngine::new();
    engine.fail_sync = true;
    let (got, result) = drive_scheduled(&mut engine, &enabled_config(ScheduleMode::Upgrade, 0));
    assert_eq!(result, Err("could not resolve host".to_string()));
    assert_eq!(
        got,
        Some(entry(false, 0, 0, Some("Failed to sync databases: could not resolve host"), &[], "upgrade"))
    );

    let mut engine = FakeEngine::new();
    engine.updates = vec![update("a", "2")];
    engine.fail_init = Some("busy".to_string());
    let (got, result) = drive_scheduled(&mut engine, &enabled_config(ScheduleMode::Upgrade, 0));
    assert_eq!(result, Err("Failed to initialize transaction: busy".to_string()));
    assert_eq!(
        got,
        Some(entry(false, 1, 0, Some("Failed to initialize transaction: busy"), &["a -> 2"], "upgrade"))
    );

    let mut engine = FakeEngine::new();
    engine.updates = vec![update("a", "2")];
    engine.fail_stage = true;
    let (got, result) = drive_scheduled(&mut engine, &enabled_config(ScheduleMode::Upgrade, 0));
    assert_eq!(result, Err("stage failed".to_string()));
    assert_eq!(
        got,
        Some(entry(false, 1, 0, Some("Failed to prepare upgrade: stage failed"), &["a -> 2"], "upgrade"))
    );

    let mut engine = FakeEngine::new();
    engine.updates = vec![update("a", "2")];
    engine.fail_commit = Some("disk full".to_string());
    let (got, result) = drive_scheduled(&mut engine, &enabled_config(ScheduleMode::Upgrade, 0));
    assert_eq!(result, Err("disk full".to_string()));
    assert_eq!(
        got,
        Some(entry(false, 1, 0, Some("Failed to commit upgrade: disk full"), &["a -> 2"], "upgrade"))
    );

    let mut engine = FakeEngine::new();
    engine.updates = vec![update("a", "2")];
    engine.plan = TransactionPlan { add_count: 0, remove_count: 0, download_size: 0 };
    let (got, result) = drive_scheduled(&mut engine, &enabled_config(ScheduleMode::Upgrade, 0));
    assert_eq!(result, Ok(()));
    assert_eq!(
        got,
        Some(entry(true, 1, 0, None, &["No packages to upgrade after preparation"], "upgrade"))
    );
}

#[test]
fn only_a_refresh_that_succeeded_outdates_the_lookup_of_repository_names() {
    let fine = EngineReply::ok(false, false);
    let stopped = EngineReply::ok(true, true);
    let failed = EngineReply::failed("no network", false, false);
    for force in [false, true] {
        assert!(repo_map_is_stale(&EngineCommand::SyncDatabases { force }, &fine));
        assert!(repo_map_is_stale(&EngineCommand::SyncDatabases { force }, &stopped));
        assert!(!repo_map_is_stale(&EngineCommand::SyncDatabases { force }, &failed));
    }
    let others = [
        EngineCommand::OpenHandle,
        EngineCommand::IgnorePackage("linux".to_string()),
        EngineCommand::ListInstalled,
        EngineCommand::ListUpdates,
        EngineCommand::InitTransaction { recurse: true },
        EngineCommand::StageUpgrade { allow_downgrade: false },
        EngineCommand::StageRemoval("linux".to_string()),
        EngineCommand::Prepare,
        EngineCommand::Commit,
        EngineCommand::Release,
    ];
    for command in others.iter() {
        assert!(!repo_map_is_stale(command, &fine));
        assert!(!repo_map_is_stale(command, &failed));
    }
}

#[test]
fn a_package_that_is_not_installed_is_passed_over_when_staging_a_removal() {
    assert_eq!(removal_error(false, Some("could not find or read package".to_string())), None);
    assert_eq!(removal_error(false, None), None);
    assert_eq!(removal_error(true, None), None);
    assert_eq!(
        removal_error(true, Some("transaction not initialized".to_string())),
        Some("transaction not initialized".to_string())
    );
}
