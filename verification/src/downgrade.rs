//! The installation of an older package from the download cache.
//!
//! The package is installed by a child process. While the child runs, its
//! output is streamed line by line, and a loop looks at the cancellation
//! flag, the clock and the child in turn; the child is killed as soon as
//! cancellation is requested or its time is up.

use vstd::prelude::*;
use vstd::string::*;

use crate::cache::{package_of_filename, parse_package_filename};
use crate::config::same_text;
use crate::engine::{event_views, status_of};
use crate::events::{
    complete, complete_view, event_of, log, log_view, timed_out_message, timed_out_text,
    StreamEvent, StreamEventView,
};
use crate::text::{
    concat, concat3, decimal, decimal_string, signed_decimal, signed_decimal_string, trim, trimmed,
};

verus! {

/// Milliseconds between two looks at the child.
pub const POLL_MILLIS: u64 = 100;

/// Whether the file name `filename` names the package `name` in the
/// version `version`.
pub open spec fn names_package(filename: Seq<char>, name: Seq<char>, version: Seq<char>) -> bool {
    package_of_filename(filename) == Some((name, version))
}

/// The text that reports a package that is not in the cache.
pub open spec fn not_cached_message(name: Seq<char>, version: Seq<char>) -> Seq<char> {
    "Package file not found in cache: "@ + name + "-"@ + version
}

/// The content of a search in the cache.
pub open spec fn found_view(r: Result<String, String>) -> Result<Seq<char>, Seq<char>> {
    match r {
        Ok(s) => Ok(s@),
        Err(e) => Err(e@),
    }
}

/// Finds the file of the package `name` in the version `version` among the
/// names of the files in the cache: the first that names it.
pub fn find_package_file(filenames: &Vec<String>, name: &str, version: &str) -> (r: Result<
    String,
    String,
>)
    ensures
        match found_view(r) {
            Ok(found) => exists|i: int|
                0 <= i < filenames@.len() && #[trigger] filenames@[i]@ == found && names_package(
                    found,
                    name@,
                    version@,
                ) && forall|j: int|
                    0 <= j < i ==> !names_package(#[trigger] filenames@[j]@, name@, version@),
            Err(text) => text == not_cached_message(name@, version@) && forall|j: int|
                0 <= j < filenames@.len() ==> !names_package(
                    #[trigger] filenames@[j]@,
                    name@,
                    version@,
                ),
        },
{
    let mut i: usize = 0;
    while i < filenames.len()
        invariant
            i <= filenames.len(),
            forall|j: int| 0 <= j < i ==> !names_package(#[trigger] filenames@[j]@, name@, version@),
        decreases filenames.len() - i,
    {
        match parse_package_filename(filenames[i].as_str()) {
            Some((pkg_name, pkg_version)) => {
                if same_text(pkg_name.as_str(), name) && same_text(pkg_version.as_str(), version) {
                    return Ok(filenames[i].clone());
                }
            },
            None => {},
        }
        i += 1;
    }
    let mut text = concat3("Package file not found in cache: ", name, "-");
    text.append(version);
    Err(text)
}

/// The two records that announce a downgrade.
pub open spec fn announcement(
    name: Seq<char>,
    version: Seq<char>,
    path: Seq<char>,
    timeout_secs: u64,
) -> Seq<StreamEventView> {
    seq![
        StreamEventView::Event {
            event: "Downgrading "@ + name + " to version "@ + version,
            package: Some(name),
        },
        log_view(
            "info"@,
            "Running: pacman -U --noconfirm "@ + path + " (timeout: "@ + decimal(
                timeout_secs as nat,
            ) + "s)"@,
        ),
    ]
}

/// The records to stream before the child is started.
pub fn announce(name: &str, version: &str, path: &str, timeout_secs: u64) -> (v: Vec<StreamEvent>)
    ensures
        event_views(v@) == announcement(name@, version@, path@, timeout_secs),
{
    let mut what = concat3("Downgrading ", name, " to version ");
    what.append(version);
    let limit = decimal_string(timeout_secs);
    let mut how = concat3("Running: pacman -U --noconfirm ", path, " (timeout: ");
    how.append(limit.as_str());
    how.append("s)");
    let mut v: Vec<StreamEvent> = Vec::new();
    v.push(StreamEvent::Event { event: what, package: Some(String::from_str(name)) });
    v.push(log("info", how));
    assert(event_views(v@) =~= announcement(name@, version@, path@, timeout_secs));
    v
}

/// The record for a line of the child's output: a line that holds more
/// than white space is logged as it is, at level `info` where the child
/// wrote it to its output and `warning` where it wrote it to its errors.
pub open spec fn output_view(line: Seq<char>, from_errors: bool) -> Option<StreamEventView> {
    if trimmed(line).len() == 0 {
        None
    } else {
        Some(
            log_view(
                if from_errors {
                    "warning"@
                } else {
                    "info"@
                },
                line,
            ),
        )
    }
}

/// The record for a line of the child's output.
pub fn output_record(line: &str, from_errors: bool) -> (e: Option<StreamEvent>)
    ensures
        event_of(e) == output_view(line@, from_errors),
{
    let stripped = trim(line);
    if stripped.as_str().is_empty() {
        None
    } else {
        Some(
            log(
                if from_errors {
                    "warning"
                } else {
                    "info"
                },
                String::from_str(line),
            ),
        )
    }
}

/// What a look at the child found.
#[derive(Debug, Clone, PartialEq, Eq)]
pub enum ChildState {
    /// The child is still at work.
    Running,
    /// The child has ended, with this exit code where it has one.
    Exited { success: bool, code: Option<i32> },
    /// The look failed with the text given.
    Unknown(String),
}

/// What the loop does after a look.
#[derive(Debug, PartialEq, Eq)]
pub enum PollAction {
    /// Sleep, then look again.
    Wait,
    /// Kill the child, stream the record and end with success.
    Kill(StreamEvent),
    /// Stream the record and end with the result.
    Finish(StreamEvent, Result<(), String>),
}

/// The mathematical content of a [`PollAction`].
pub enum PollActionView {
    Wait,
    Kill(StreamEventView),
    Finish(StreamEventView, Result<(), Seq<char>>),
}

impl View for PollAction {
    type V = PollActionView;

    open spec fn view(&self) -> PollActionView {
        match *self {
            PollAction::Wait => PollActionView::Wait,
            PollAction::Kill(e) => PollActionView::Kill(e@),
            PollAction::Finish(e, r) => PollActionView::Finish(e@, status_of(r)),
        }
    }
}

/// Whether the time of the child is up: more time has passed than it was
/// given.
pub open spec fn time_is_up(elapsed_millis: u64, timeout_secs: u64) -> bool {
    elapsed_millis > timeout_secs * 1000
}

/// What the loop does after a look: cancellation is looked at first, then
/// the clock, then the child.
pub open spec fn poll_decision(
    child: ChildState,
    cancelled: bool,
    elapsed_millis: u64,
    timeout_secs: u64,
    name: Seq<char>,
    version: Seq<char>,
) -> PollActionView {
    if cancelled {
        PollActionView::Kill(complete_view(false, "Operation cancelled by user"@))
    } else if time_is_up(elapsed_millis, timeout_secs) {
        PollActionView::Kill(complete_view(false, timed_out_message(timeout_secs)))
    } else {
        match child {
            ChildState::Running => PollActionView::Wait,
            ChildState::Exited { success, code } => if success {
                PollActionView::Finish(
                    complete_view(
                        true,
                        "Successfully downgraded "@ + name + " to "@ + version,
                    ),
                    Ok(()),
                )
            } else {
                PollActionView::Finish(
                    complete_view(
                        false,
                        "Failed to downgrade "@ + name + ": exit code "@ + signed_decimal(
                            match code {
                                Some(c) => c as int,
                                None => -1,
                            },
                        ),
                    ),
                    Ok(()),
                )
            },
            ChildState::Unknown(error) => PollActionView::Finish(
                complete_view(false, "Failed to check process status: "@ + error@),
                Err(error@),
            ),
        }
    }
}

/// Whether more than `timeout_secs` seconds have passed after
/// `elapsed_millis` milliseconds.
pub fn past_deadline(elapsed_millis: u64, timeout_secs: u64) -> (r: bool)
    ensures
        r == time_is_up(elapsed_millis, timeout_secs),
{
    // Compared in whole seconds, so that the product cannot overflow.
    let whole: u64 = elapsed_millis / 1000;
    let part: u64 = elapsed_millis % 1000;
    whole > timeout_secs || (whole == timeout_secs && part > 0)
}

/// Decides what the loop does after one look at the flag, the clock and
/// the child.
pub fn downgrade_package(
    child: &ChildState,
    cancelled: bool,
    elapsed_millis: u64,
    timeout_secs: u64,
    name: &str,
    version: &str,
) -> (action: PollAction)
    ensures
        action@ == poll_decision(*child, cancelled, elapsed_millis, timeout_secs, name@, version@),
{
    if cancelled {
        PollAction::Kill(complete(false, String::from_str("Operation cancelled by user")))
    } else if past_deadline(elapsed_millis, timeout_secs) {
        PollAction::Kill(complete(false, timed_out_text(timeout_secs)))
    } else {
        match child {
            ChildState::Running => PollAction::Wait,
            ChildState::Exited { success, code } => if *success {
                let mut text = concat3("Successfully downgraded ", name, " to ");
                text.append(version);
                PollAction::Finish(complete(true, text), Ok(()))
            } else {
                let shown: i64 = match code {
                    Some(c) => *c as i64,
                    None => -1,
                };
                let digits = signed_decimal_string(shown);
                let mut text = concat3("Failed to downgrade ", name, ": exit code ");
                text.append(digits.as_str());
                PollAction::Finish(complete(false, text), Ok(()))
            },
            ChildState::Unknown(error) => PollAction::Finish(
                complete(false, concat("Failed to check process status: ", error.as_str())),
                Err(error.clone()),
            ),
        }
    }
}

/// A cached package file as the caller is told of it.
#[derive(Debug, Clone, PartialEq, Eq)]
pub struct CachedVersion {
    pub name: String,
    pub version: String,
    pub filename: String,
    pub size: i64,
    pub installed_version: Option<String>,
    /// Whether this version is older than the installed one.
    pub is_older: bool,
}

/// The cached package files as the caller is told of them.
#[derive(Debug, Clone, PartialEq, Eq)]
pub struct DowngradeResponse {
    pub packages: Vec<CachedVersion>,
    pub total: usize,
}

/// Whether a cached file is listed: all are where no package is asked for,
/// else those of the package asked for.
pub open spec fn listed(entry: CachedVersion, package_name: Option<Seq<char>>) -> bool {
    match package_name {
        Some(name) => entry.name@ == name,
        None => true,
    }
}

/// The entries of `entries` that are listed, in the order given.
pub open spec fn listed_entries(entries: Seq<CachedVersion>, package_name: Option<Seq<char>>) -> Seq<
    CachedVersion,
>
    decreases entries.len(),
{
    if entries.len() == 0 {
        Seq::empty()
    } else {
        let rest = listed_entries(entries.drop_last(), package_name);
        if listed(entries.last(), package_name) {
            rest.push(entries.last())
        } else {
            rest
        }
    }
}

/// The content of an optional text.
pub open spec fn wanted_name(package_name: Option<&str>) -> Option<Seq<char>> {
    match package_name {
        Some(n) => Some(n@),
        None => None,
    }
}

/// The cached files to list, in the order given: those of the package
/// asked for, or all where none is asked for.
pub fn list_downgrades(entries: Vec<CachedVersion>, package_name: Option<&str>) -> (r:
    DowngradeResponse)
    ensures
        r.packages@ == listed_entries(entries@, wanted_name(package_name)),
        r.total == r.packages@.len(),
{
    let ghost wanted = wanted_name(package_name);
    let ghost all = entries@;
    let mut packages: Vec<CachedVersion> = Vec::new();
    assert(all.take(0) =~= Seq::empty());
    for entry in it: entries
        invariant
            it.seq() == all,
            wanted == wanted_name(package_name),
            packages@ == listed_entries(all.take(it.index() as int), wanted),
    {
        let take = match package_name {
            Some(n) => same_text(entry.name.as_str(), n),
            None => true,
        };
        proof {
            let next = all.take(it.index() + 1);
            assert(next.drop_last() =~= all.take(it.index() as int));
            assert(next.last() == entry);
        }
        if take {
            packages.push(entry);
        }
    }
    assert(all.take(all.len() as int) =~= all);
    DowngradeResponse { total: packages.len(), packages }
}

} // verus!
