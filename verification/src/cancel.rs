//! Cooperative cancellation and wall-clock deadlines.
//!
//! A [`CancellationToken`] is a flag that an interrupt handler raises and the
//! drivers sample; a [`TimeoutGuard`] is a deadline fixed when an operation
//! starts. Both are sampled at phase boundaries only, and what is decided
//! from a sample is a pure function of it: [`check_state`].

use std::sync::atomic::AtomicBool;
use std::sync::atomic::Ordering;
use std::sync::Arc;
use std::time::Duration;
use std::time::Instant;
use vstd::prelude::*;

use crate::events::{
    complete, complete_view, event_of, timed_out_message, timed_out_text, StreamEvent,
};

verus! {

/// Seconds a mutating operation may take when the caller names no limit.
pub const DEFAULT_MUTATION_TIMEOUT_SECS: u64 = 300;

/// `std::time::Instant`, a reading of the monotonic clock. Nothing is known
/// of what a reading holds: it is carried from `Instant::now` to
/// `Instant::elapsed`.
#[verifier::external_type_specification]
#[verifier::external_body]
pub struct ExInstant(Instant);

/// Calls `Instant::now`. Nothing is promised of the clock's reading.
#[verifier::external_body]
fn clock_now() -> Instant {
    Instant::now()
}

/// Calls `Instant::elapsed`. Nothing is promised of the time that has passed.
#[verifier::external_body]
fn clock_elapsed(start: &Instant) -> Duration {
    start.elapsed()
}

/// Calls `Duration::as_secs`, the whole seconds of a duration.
#[verifier::external_body]
fn whole_seconds(d: &Duration) -> u64 {
    d.as_secs()
}

/// A flag shared between an operation and whoever may interrupt it.
#[derive(Clone)]
pub struct CancellationToken {
    flag: Arc<AtomicBool>,
}

impl CancellationToken {
    /// A token that has not been cancelled through any of its clones.
    pub fn new() -> CancellationToken {
        CancellationToken { flag: Arc::new(AtomicBool::new(false)) }
    }

    /// Raises the flag. Safe to call from an interrupt handler.
    pub fn cancel(&self) {
        self.flag.store(true, Ordering::SeqCst);
    }
}

/// Whether cancellation has been requested. The answer may change at any
/// moment, so nothing is promised of it.
pub fn is_cancelled(token: &CancellationToken) -> bool {
    token.flag.load(Ordering::SeqCst)
}

/// Lowers the flag at the start of a top-level operation.
pub fn reset_cancelled(token: &CancellationToken) {
    token.flag.store(false, Ordering::SeqCst);
}

/// An absolute deadline: the moment of creation plus a number of seconds.
pub struct TimeoutGuard {
    start: Instant,
    timeout: u64,
}

/// Whether a deadline of `timeout_secs` has passed once `elapsed_secs` whole
/// seconds have gone by.
pub open spec fn deadline_reached(elapsed_secs: u64, timeout_secs: u64) -> bool {
    elapsed_secs >= timeout_secs
}

/// Decides from a clock reading whether the deadline has passed.
pub fn deadline_passed(elapsed_secs: u64, timeout_secs: u64) -> (r: bool)
    ensures
        r == deadline_reached(elapsed_secs, timeout_secs),
{
    elapsed_secs >= timeout_secs
}

/// A deadline that has passed stays passed as time goes on.
pub proof fn lemma_deadline_never_unexpires(earlier: u64, later: u64, timeout_secs: u64)
    requires
        earlier <= later,
        deadline_reached(earlier, timeout_secs),
    ensures
        deadline_reached(later, timeout_secs),
{
}

impl TimeoutGuard {
    /// The configured number of seconds.
    pub closed spec fn limit(&self) -> u64 {
        self.timeout
    }

    /// Starts the clock now, with a limit of `timeout_secs` seconds.
    pub fn new(timeout_secs: u64) -> (g: TimeoutGuard)
        ensures
            g.limit() == timeout_secs,
    {
        TimeoutGuard { start: clock_now(), timeout: timeout_secs }
    }

    /// Whether the deadline has passed. A limit of zero has always passed.
    pub fn is_timed_out(&self) -> (r: bool)
        ensures
            self.limit() == 0 ==> r,
    {
        let elapsed = clock_elapsed(&self.start);
        deadline_passed(whole_seconds(&elapsed), self.timeout)
    }

    /// Whole seconds since the guard was made.
    pub fn elapsed_secs(&self) -> u64 {
        let elapsed = clock_elapsed(&self.start);
        whole_seconds(&elapsed)
    }

    /// The configured number of seconds.
    pub fn timeout_secs(&self) -> (r: u64)
        ensures
            r == self.limit(),
    {
        self.timeout
    }
}

/// What a sample of the two flags allows.
#[derive(Debug, Clone, Copy, PartialEq, Eq, Structural)]
pub enum CheckResult {
    Continue,
    Cancelled,
    TimedOut(u64),
}

/// The verdict on one sample: cancellation outranks the deadline.
pub open spec fn check_verdict(cancelled: bool, timed_out: bool, timeout_secs: u64) -> CheckResult {
    if cancelled {
        CheckResult::Cancelled
    } else if timed_out {
        CheckResult::TimedOut(timeout_secs)
    } else {
        CheckResult::Continue
    }
}

/// Decides from one sample of the flags whether the operation goes on.
pub fn check_state(cancelled: bool, timed_out: bool, timeout_secs: u64) -> (r: CheckResult)
    ensures
        r == check_verdict(cancelled, timed_out, timeout_secs),
{
    if cancelled {
        CheckResult::Cancelled
    } else if timed_out {
        CheckResult::TimedOut(timeout_secs)
    } else {
        CheckResult::Continue
    }
}

/// Samples the token and the deadline and decides. Whatever the sample, a
/// `TimedOut` verdict carries the guard's own limit, and a limit of zero
/// never lets the operation continue.
pub fn check_cancel(token: &CancellationToken, timeout: &TimeoutGuard) -> (r: CheckResult)
    ensures
        r matches CheckResult::TimedOut(secs) ==> secs == timeout.limit(),
        timeout.limit() == 0 ==> r != CheckResult::Continue,
{
    let cancelled = is_cancelled(token);
    let timed_out = timeout.is_timed_out();
    check_state(cancelled, timed_out, timeout.timeout_secs())
}

/// The terminal record owed for a verdict that stops the operation.
pub open spec fn cancellation_record(reason: CheckResult) -> Option<crate::events::StreamEventView> {
    match reason {
        CheckResult::Cancelled => Some(complete_view(false, "Operation cancelled by user"@)),
        CheckResult::TimedOut(secs) => Some(complete_view(false, timed_out_message(secs))),
        CheckResult::Continue => None,
    }
}

/// The terminal record to stream for `reason`: none where the operation
/// continues.
pub fn emit_cancellation_complete(reason: &CheckResult) -> (e: Option<StreamEvent>)
    ensures
        event_of(e) == cancellation_record(*reason),
{
    match reason {
        CheckResult::Cancelled => Some(
            complete(false, String::from_str("Operation cancelled by user")),
        ),
        CheckResult::TimedOut(secs) => Some(complete(false, timed_out_text(*secs))),
        CheckResult::Continue => None,
    }
}

} // verus!
