//! The records that the engine's callbacks stream.
//!
//! The engine reports what it does through callbacks: log lines, download
//! progress, transaction progress and events. Each report becomes one
//! record; which, is decided here.

use vstd::prelude::*;
use vstd::string::*;

use crate::engine::PackageReason;
use crate::events::{event_of, log_view, text_of, StreamEvent, StreamEventView};
use crate::text::{trim, trimmed};

verus! {

/// What the engine is busy with when it reports progress.
#[derive(Debug, Clone, Copy, PartialEq, Eq, Structural)]
pub enum Progress {
    AddStart,
    UpgradeStart,
    DowngradeStart,
    ReinstallStart,
    RemoveStart,
    ConflictsStart,
    DiskspaceStart,
    IntegrityStart,
    LoadStart,
    KeyringStart,
}

/// The name of a kind of progress.
pub open spec fn progress_name(progress: Progress) -> Seq<char> {
    match progress {
        Progress::AddStart => "add_start"@,
        Progress::UpgradeStart => "upgrade_start"@,
        Progress::DowngradeStart => "downgrade_start"@,
        Progress::ReinstallStart => "reinstall_start"@,
        Progress::RemoveStart => "remove_start"@,
        Progress::ConflictsStart => "conflicts_start"@,
        Progress::DiskspaceStart => "diskspace_start"@,
        Progress::IntegrityStart => "integrity_start"@,
        Progress::LoadStart => "load_start"@,
        Progress::KeyringStart => "keyring_start"@,
    }
}

/// The name of a kind of progress.
pub fn progress_to_string(progress: Progress) -> (name: &'static str)
    ensures
        name@ == progress_name(progress),
{
    match progress {
        Progress::AddStart => "add_start",
        Progress::UpgradeStart => "upgrade_start",
        Progress::DowngradeStart => "downgrade_start",
        Progress::ReinstallStart => "reinstall_start",
        Progress::RemoveStart => "remove_start",
        Progress::ConflictsStart => "conflicts_start",
        Progress::DiskspaceStart => "diskspace_start",
        Progress::IntegrityStart => "integrity_start",
        Progress::LoadStart => "load_start",
        Progress::KeyringStart => "keyring_start",
    }
}

/// The name of a reason for which a package is installed.
pub open spec fn reason_name(reason: PackageReason) -> Seq<char> {
    match reason {
        PackageReason::Explicit => "explicit"@,
        PackageReason::Depend => "dependency"@,
    }
}

/// The name of a reason for which a package is installed.
pub fn reason_to_string(reason: PackageReason) -> (name: &'static str)
    ensures
        name@ == reason_name(reason),
{
    match reason {
        PackageReason::Explicit => "explicit",
        PackageReason::Depend => "dependency",
    }
}

/// The level of a log line. The engine marks a line with one bit for its
/// level.
pub const LOG_ERROR: u32 = 1;

pub const LOG_WARNING: u32 = 2;

pub const LOG_DEBUG: u32 = 4;

pub const LOG_FUNCTION: u32 = 8;

/// The name of the level that the bits `level` stand for. Bits that stand
/// for no single level give `info`.
pub open spec fn level_name(level: u32) -> Seq<char> {
    if level == LOG_ERROR {
        "error"@
    } else if level == LOG_WARNING {
        "warning"@
    } else if level == LOG_DEBUG {
        "debug"@
    } else if level == LOG_FUNCTION {
        "function"@
    } else {
        "info"@
    }
}

/// The name of the level that the bits `level` stand for.
pub fn log_level_to_string(level: u32) -> (name: &'static str)
    ensures
        name@ == level_name(level),
{
    if level == LOG_ERROR {
        "error"
    } else if level == LOG_WARNING {
        "warning"
    } else if level == LOG_DEBUG {
        "debug"
    } else if level == LOG_FUNCTION {
        "function"
    } else {
        "info"
    }
}

/// The record for a log line of the engine: its level by name, and its
/// text without the white space around it.
pub fn log_record(level: u32, message: &str) -> (e: StreamEvent)
    ensures
        e@ == log_view(level_name(level), trimmed(message@)),
{
    StreamEvent::Log {
        level: String::from_str(log_level_to_string(level)),
        message: trim(message),
    }
}

/// What the engine reports of a download.
#[derive(Debug, Clone, Copy, PartialEq, Eq, Structural)]
pub enum DownloadEvent {
    Init,
    Progress { downloaded: i64, total: i64 },
    Retry,
    Completed { total: i64 },
}

/// The record for a report of a download.
pub open spec fn download_view(filename: Seq<char>, event: DownloadEvent) -> StreamEventView {
    match event {
        DownloadEvent::Init => StreamEventView::Download {
            filename,
            event: "init"@,
            downloaded: None,
            total: None,
        },
        DownloadEvent::Progress { downloaded, total } => StreamEventView::Download {
            filename,
            event: "progress"@,
            downloaded: Some(downloaded),
            total: Some(total),
        },
        DownloadEvent::Retry => StreamEventView::Download {
            filename,
            event: "retry"@,
            downloaded: None,
            total: None,
        },
        DownloadEvent::Completed { total } => StreamEventView::Download {
            filename,
            event: "completed"@,
            downloaded: None,
            total: Some(total),
        },
    }
}

/// The record for a report of a download.
pub fn download_record(filename: &str, event: DownloadEvent) -> (e: StreamEvent)
    ensures
        e@ == download_view(filename@, event),
{
    let name = String::from_str(filename);
    match event {
        DownloadEvent::Init => StreamEvent::Download {
            filename: name,
            event: String::from_str("init"),
            downloaded: None,
            total: None,
        },
        DownloadEvent::Progress { downloaded, total } => StreamEvent::Download {
            filename: name,
            event: String::from_str("progress"),
            downloaded: Some(downloaded),
            total: Some(total),
        },
        DownloadEvent::Retry => StreamEvent::Download {
            filename: name,
            event: String::from_str("retry"),
            downloaded: None,
            total: None,
        },
        DownloadEvent::Completed { total } => StreamEvent::Download {
            filename: name,
            event: String::from_str("completed"),
            downloaded: None,
            total: Some(total),
        },
    }
}

/// The record for a report of progress. Once cancellation is requested,
/// progress is streamed no longer.
pub fn progress_record(
    progress: Progress,
    package: &str,
    percent: i32,
    howmany: usize,
    current: usize,
    cancelled: bool,
) -> (e: Option<StreamEvent>)
    ensures
        event_of(e) == (if cancelled {
            None
        } else {
            Some(
                StreamEventView::Progress {
                    operation: progress_name(progress),
                    package: package@,
                    percent,
                    current,
                    total: howmany,
                },
            )
        }),
{
    if cancelled {
        None
    } else {
        Some(
            StreamEvent::Progress {
                operation: String::from_str(progress_to_string(progress)),
                package: String::from_str(package),
                percent,
                current,
                total: howmany,
            },
        )
    }
}

/// What the engine does to a package.
#[derive(Debug, Clone, PartialEq, Eq)]
pub enum PackageOperation {
    /// A package is installed.
    Install(String),
    /// The named package is replaced by a newer version of it.
    Upgrade(String),
    /// A package is installed again.
    Reinstall(String),
    /// The named package is replaced by an older version of it.
    Downgrade(String),
    /// A package is removed.
    Remove(String),
}

/// An event of a transaction.
#[derive(Debug, Clone, PartialEq, Eq)]
pub enum EngineEvent {
    PackageOperationStart(PackageOperation),
    PackageOperationDone(PackageOperation),
    ScriptletInfo(String),
    DatabaseMissing(String),
    RetrieveStart,
    RetrieveDone,
    RetrieveFailed,
    TransactionStart,
    TransactionDone,
    HookStart,
    HookDone,
    HookRunStart(String),
    HookRunDone(String),
    Other,
}

/// The name of an operation and the package it is about.
pub open spec fn operation_view(op: PackageOperation) -> (Seq<char>, Seq<char>) {
    match op {
        PackageOperation::Install(name) => ("install"@, name@),
        PackageOperation::Upgrade(name) => ("upgrade"@, name@),
        PackageOperation::Reinstall(name) => ("reinstall"@, name@),
        PackageOperation::Downgrade(name) => ("downgrade"@, name@),
        PackageOperation::Remove(name) => ("remove"@, name@),
    }
}

/// The record for an event of an upgrade: the name of the event and what
/// it is about, where it is about something.
pub open spec fn event_view(event: EngineEvent) -> StreamEventView {
    match event {
        EngineEvent::PackageOperationStart(op) => StreamEventView::Event {
            event: operation_view(op).0,
            package: Some(operation_view(op).1),
        },
        EngineEvent::PackageOperationDone(op) => StreamEventView::Event {
            event: operation_view(op).0,
            package: Some(operation_view(op).1),
        },
        EngineEvent::ScriptletInfo(line) => StreamEventView::Event {
            event: "scriptlet"@,
            package: Some(line@),
        },
        EngineEvent::DatabaseMissing(name) => StreamEventView::Event {
            event: "db_missing"@,
            package: Some(name@),
        },
        EngineEvent::RetrieveStart => StreamEventView::Event {
            event: "retrieve_start"@,
            package: None,
        },
        EngineEvent::RetrieveDone => StreamEventView::Event {
            event: "retrieve_done"@,
            package: None,
        },
        EngineEvent::RetrieveFailed => StreamEventView::Event {
            event: "retrieve_failed"@,
            package: None,
        },
        EngineEvent::TransactionStart => StreamEventView::Event {
            event: "transaction_start"@,
            package: None,
        },
        EngineEvent::TransactionDone => StreamEventView::Event {
            event: "transaction_done"@,
            package: None,
        },
        EngineEvent::HookStart => StreamEventView::Event { event: "hook_start"@, package: None },
        EngineEvent::HookDone => StreamEventView::Event { event: "hook_done"@, package: None },
        EngineEvent::HookRunStart(name) => StreamEventView::Event {
            event: "hook_run_start"@,
            package: Some(name@),
        },
        EngineEvent::HookRunDone(name) => StreamEventView::Event {
            event: "hook_run_done"@,
            package: Some(name@),
        },
        EngineEvent::Other => StreamEventView::Event { event: "other"@, package: None },
    }
}

/// Whether a removal streams an event: it streams the removal of
/// packages, the bounds of the transaction, and its hooks.
pub open spec fn removal_streams(event: EngineEvent) -> bool {
    match event {
        EngineEvent::PackageOperationStart(op) => op is Remove,
        EngineEvent::PackageOperationDone(op) => op is Remove,
        EngineEvent::TransactionStart => true,
        EngineEvent::TransactionDone => true,
        EngineEvent::HookStart => true,
        EngineEvent::HookDone => true,
        EngineEvent::HookRunStart(_) => true,
        EngineEvent::HookRunDone(_) => true,
        _ => false,
    }
}

/// A record of kind `Event`.
fn named_event(event: &str, package: Option<String>) -> (e: StreamEvent)
    ensures
        e@ == (StreamEventView::Event { event: event@, package: text_of(package) }),
{
    StreamEvent::Event { event: String::from_str(event), package }
}

/// The record for an operation on a package.
fn operation_record(op: &PackageOperation) -> (e: StreamEvent)
    ensures
        e@ == (StreamEventView::Event {
            event: operation_view(*op).0,
            package: Some(operation_view(*op).1),
        }),
{
    match op {
        PackageOperation::Install(name) => named_event("install", Some(name.clone())),
        PackageOperation::Upgrade(name) => named_event("upgrade", Some(name.clone())),
        PackageOperation::Reinstall(name) => named_event("reinstall", Some(name.clone())),
        PackageOperation::Downgrade(name) => named_event("downgrade", Some(name.clone())),
        PackageOperation::Remove(name) => named_event("remove", Some(name.clone())),
    }
}

/// The record for an event of an upgrade.
pub fn event_record(event: &EngineEvent) -> (e: StreamEvent)
    ensures
        e@ == event_view(*event),
{
    match event {
        EngineEvent::PackageOperationStart(op) => operation_record(op),
        EngineEvent::PackageOperationDone(op) => operation_record(op),
        EngineEvent::ScriptletInfo(line) => named_event("scriptlet", Some(line.clone())),
        EngineEvent::DatabaseMissing(name) => named_event("db_missing", Some(name.clone())),
        EngineEvent::RetrieveStart => named_event("retrieve_start", None),
        EngineEvent::RetrieveDone => named_event("retrieve_done", None),
        EngineEvent::RetrieveFailed => named_event("retrieve_failed", None),
        EngineEvent::TransactionStart => named_event("transaction_start", None),
        EngineEvent::TransactionDone => named_event("transaction_done", None),
        EngineEvent::HookStart => named_event("hook_start", None),
        EngineEvent::HookDone => named_event("hook_done", None),
        EngineEvent::HookRunStart(name) => named_event("hook_run_start", Some(name.clone())),
        EngineEvent::HookRunDone(name) => named_event("hook_run_done", Some(name.clone())),
        EngineEvent::Other => named_event("other", None),
    }
}

/// The record for an event of a removal, where a removal streams it.
pub fn removal_event_record(event: &EngineEvent) -> (e: Option<StreamEvent>)
    ensures
        event_of(e) == (if removal_streams(*event) {
            Some(event_view(*event))
        } else {
            None
        }),
{
    let streams = match event {
        EngineEvent::PackageOperationStart(op) => matches!(op, PackageOperation::Remove(_)),
        EngineEvent::PackageOperationDone(op) => matches!(op, PackageOperation::Remove(_)),
        EngineEvent::TransactionStart => true,
        EngineEvent::TransactionDone => true,
        EngineEvent::HookStart => true,
        EngineEvent::HookDone => true,
        EngineEvent::HookRunStart(_) => true,
        EngineEvent::HookRunDone(_) => true,
        _ => false,
    };
    if streams {
        Some(event_record(event))
    } else {
        None
    }
}

} // verus!
