//! The records streamed to the caller while an operation runs.

use vstd::prelude::*;
use vstd::string::*;

use crate::text::{concat3, decimal, decimal_string};

verus! {

/// One record of the progress stream. A record of kind `Complete` ends the
/// stream of an operation.
#[derive(Debug, Clone, PartialEq, Eq)]
#[allow(inconsistent_fields)]
pub enum StreamEvent {
    Log { level: String, message: String },
    Progress { operation: String, package: String, percent: i32, current: usize, total: usize },
    Download { filename: String, event: String, downloaded: Option<i64>, total: Option<i64> },
    Event { event: String, package: Option<String> },
    Complete { success: bool, message: Option<String> },
    MirrorTest { url: String, current: usize, total: usize, result: MirrorTestResult },
}

/// What the test of one mirror found.
#[derive(Debug, Clone, PartialEq, Eq)]
pub struct MirrorTestResult {
    pub url: String,
    pub success: bool,
    pub speed_bps: Option<u64>,
    pub latency_ms: Option<u64>,
    pub error: Option<String>,
}

/// The mathematical content of a [`MirrorTestResult`].
pub struct MirrorTestResultView {
    pub url: Seq<char>,
    pub success: bool,
    pub speed_bps: Option<u64>,
    pub latency_ms: Option<u64>,
    pub error: Option<Seq<char>>,
}

impl View for MirrorTestResult {
    type V = MirrorTestResultView;

    open spec fn view(&self) -> MirrorTestResultView {
        MirrorTestResultView {
            url: self.url@,
            success: self.success,
            speed_bps: self.speed_bps,
            latency_ms: self.latency_ms,
            error: text_of(self.error),
        }
    }
}

/// The mathematical content of a [`StreamEvent`].
#[allow(inconsistent_fields)]
pub enum StreamEventView {
    Log { level: Seq<char>, message: Seq<char> },
    Progress {
        operation: Seq<char>,
        package: Seq<char>,
        percent: i32,
        current: usize,
        total: usize,
    },
    Download {
        filename: Seq<char>,
        event: Seq<char>,
        downloaded: Option<i64>,
        total: Option<i64>,
    },
    Event { event: Seq<char>, package: Option<Seq<char>> },
    Complete { success: bool, message: Option<Seq<char>> },
    MirrorTest { url: Seq<char>, current: usize, total: usize, result: MirrorTestResultView },
}

/// The content of an optional string.
pub open spec fn text_of(s: Option<String>) -> Option<Seq<char>> {
    match s {
        Some(t) => Some(t@),
        None => None,
    }
}

impl View for StreamEvent {
    type V = StreamEventView;

    open spec fn view(&self) -> StreamEventView {
        match *self {
            StreamEvent::Log { level, message } => StreamEventView::Log {
                level: level@,
                message: message@,
            },
            StreamEvent::Progress {
                operation,
                package,
                percent,
                current,
                total,
            } => StreamEventView::Progress {
                operation: operation@,
                package: package@,
                percent,
                current,
                total,
            },
            StreamEvent::Download { filename, event, downloaded, total } => StreamEventView::Download {
                filename: filename@,
                event: event@,
                downloaded,
                total,
            },
            StreamEvent::Event { event, package } => StreamEventView::Event {
                event: event@,
                package: text_of(package),
            },
            StreamEvent::Complete { success, message } => StreamEventView::Complete {
                success,
                message: text_of(message),
            },
            StreamEvent::MirrorTest { url, current, total, result } => StreamEventView::MirrorTest {
                url: url@,
                current,
                total,
                result: result@,
            },
        }
    }
}

/// The content of an optional record.
pub open spec fn event_of(e: Option<StreamEvent>) -> Option<StreamEventView> {
    match e {
        Some(ev) => Some(ev@),
        None => None,
    }
}

/// A terminal record with a message.
pub open spec fn complete_view(success: bool, message: Seq<char>) -> StreamEventView {
    StreamEventView::Complete { success, message: Some(message) }
}

/// A terminal record without a message.
pub open spec fn complete_plain_view(success: bool) -> StreamEventView {
    StreamEventView::Complete { success, message: None }
}

/// A log record.
pub open spec fn log_view(level: Seq<char>, message: Seq<char>) -> StreamEventView {
    StreamEventView::Log { level, message }
}

/// Text of the record that reports a deadline of `secs` seconds as passed.
pub open spec fn timed_out_message(secs: u64) -> Seq<char> {
    "Operation timed out after "@ + decimal(secs as nat) + " seconds"@
}

/// A terminal record carrying `message`.
pub fn complete(success: bool, message: String) -> (e: StreamEvent)
    ensures
        e@ == complete_view(success, message@),
{
    StreamEvent::Complete { success, message: Some(message) }
}

/// A terminal record without a message.
pub fn complete_plain(success: bool) -> (e: StreamEvent)
    ensures
        e@ == complete_plain_view(success),
{
    StreamEvent::Complete { success, message: None }
}

/// A log record of the given level.
pub fn log(level: &str, message: String) -> (e: StreamEvent)
    ensures
        e@ == log_view(level@, message@),
{
    StreamEvent::Log { level: String::from_str(level), message }
}

/// The message that reports a deadline of `secs` seconds as passed.
pub fn timed_out_text(secs: u64) -> (m: String)
    ensures
        m@ == timed_out_message(secs),
{
    let n = decimal_string(secs);
    concat3("Operation timed out after ", n.as_str(), " seconds")
}

} // verus!
