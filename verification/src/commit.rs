//! Triage of a failed commit.
//!
//! The engine reports an interrupted commit as an ordinary error, so a
//! failure is classified from three observations: whether cancellation was
//! requested while the commit ran, whether the deadline passed while it ran,
//! and whether the error text names an interruption. Interruption outranks a
//! passed deadline, which outranks plain failure.

use vstd::prelude::*;
use vstd::string::*;

use crate::cancel::{is_cancelled, CancellationToken, TimeoutGuard};
use crate::events::{
    complete, complete_view, timed_out_message, timed_out_text, StreamEvent, StreamEventView,
};
use crate::text::{concat, occurs_in, str_contains, to_lowercase, unicode_lowercase};

verus! {

/// How a commit ended.
#[derive(Debug, Clone, PartialEq, Eq)]
pub enum CommitOutcome {
    /// The engine applied the transaction.
    Committed,
    /// The commit was cut short; the system may be partially changed.
    Interrupted,
    /// The deadline passed while the commit ran.
    TimedOut,
    /// The engine rejected the transaction; the text is the engine's.
    Failed(String),
}

/// The mathematical content of a [`CommitOutcome`].
pub enum CommitOutcomeView {
    Committed,
    Interrupted,
    TimedOut,
    Failed(Seq<char>),
}

impl View for CommitOutcome {
    type V = CommitOutcomeView;

    open spec fn view(&self) -> CommitOutcomeView {
        match *self {
            CommitOutcome::Committed => CommitOutcomeView::Committed,
            CommitOutcome::Interrupted => CommitOutcomeView::Interrupted,
            CommitOutcome::TimedOut => CommitOutcomeView::TimedOut,
            CommitOutcome::Failed(reason) => CommitOutcomeView::Failed(reason@),
        }
    }
}

/// Whether a lower-cased error text names an interruption.
pub open spec fn names_interruption(lowered: Seq<char>) -> bool {
    ||| occurs_in(lowered, "interrupt"@)
    ||| occurs_in(lowered, "cancel"@)
    ||| occurs_in(lowered, "signal"@)
    ||| occurs_in(lowered, "timeout"@)
}

/// The class of a failed commit, given the error text, its lower-cased form
/// and the two flags as sampled before and after the commit call.
pub open spec fn failure_class(
    error: Seq<char>,
    lowered: Seq<char>,
    cancelled_before: bool,
    cancelled_after: bool,
    timed_out_before: bool,
    timed_out_after: bool,
) -> CommitOutcomeView {
    let cancelled_during = !cancelled_before && cancelled_after;
    let timed_out_during = !timed_out_before && timed_out_after;
    if cancelled_during || names_interruption(lowered) {
        CommitOutcomeView::Interrupted
    } else if timed_out_during {
        CommitOutcomeView::TimedOut
    } else {
        CommitOutcomeView::Failed(error)
    }
}

/// Whether the lower-cased error text `lowered` names an interruption.
pub fn mentions_interruption(lowered: &str) -> (r: bool)
    ensures
        r == names_interruption(lowered@),
{
    str_contains(lowered, "interrupt") || str_contains(lowered, "cancel") || str_contains(
        lowered,
        "signal",
    ) || str_contains(lowered, "timeout")
}

/// Classifies a failed commit from the error text, its lower-cased form and
/// the flags sampled before and after the commit call.
pub fn classify_lowered(
    error: &str,
    lowered: &str,
    cancelled_before: bool,
    cancelled_after: bool,
    timed_out_before: bool,
    timed_out_after: bool,
) -> (outcome: CommitOutcome)
    ensures
        outcome@ == failure_class(
            error@,
            lowered@,
            cancelled_before,
            cancelled_after,
            timed_out_before,
            timed_out_after,
        ),
{
    let cancelled_during = !cancelled_before && cancelled_after;
    let timed_out_during = !timed_out_before && timed_out_after;
    if cancelled_during || mentions_interruption(lowered) {
        CommitOutcome::Interrupted
    } else if timed_out_during {
        CommitOutcome::TimedOut
    } else {
        CommitOutcome::Failed(String::from_str(error))
    }
}

/// Classifies a failed commit; the keywords are looked for without regard
/// to case.
pub fn classify_commit_failure(
    error: &str,
    cancelled_before: bool,
    cancelled_after: bool,
    timed_out_before: bool,
    timed_out_after: bool,
) -> (outcome: CommitOutcome)
    ensures
        outcome@ == failure_class(
            error@,
            unicode_lowercase(error@),
            cancelled_before,
            cancelled_after,
            timed_out_before,
            timed_out_after,
        ),
{
    let lowered = to_lowercase(error);
    classify_lowered(
        error,
        lowered.as_str(),
        cancelled_before,
        cancelled_after,
        timed_out_before,
        timed_out_after,
    )
}

/// Cancellation that was already requested before the commit began does not
/// count as an interruption of the commit, and neither does a deadline that
/// had already passed.
pub proof fn lemma_earlier_flags_do_not_interrupt(
    error: Seq<char>,
    lowered: Seq<char>,
    cancelled_after: bool,
    timed_out_after: bool,
)
    requires
        !names_interruption(lowered),
    ensures
        failure_class(error, lowered, true, cancelled_after, true, timed_out_after)
            == CommitOutcomeView::Failed(error),
        failure_class(error, lowered, true, cancelled_after, false, timed_out_after) == (if timed_out_after {
            CommitOutcomeView::TimedOut
        } else {
            CommitOutcomeView::Failed(error)
        }),
{
}

/// Interruption outranks every other class: a commit during which
/// cancellation arrived, or whose error names an interruption, is never
/// reported as timed out or as plainly failed.
pub proof fn lemma_interruption_outranks(
    error: Seq<char>,
    lowered: Seq<char>,
    cancelled_before: bool,
    cancelled_after: bool,
    timed_out_before: bool,
    timed_out_after: bool,
)
    requires
        (!cancelled_before && cancelled_after) || names_interruption(lowered),
    ensures
        failure_class(
            error,
            lowered,
            cancelled_before,
            cancelled_after,
            timed_out_before,
            timed_out_after,
        ) == CommitOutcomeView::Interrupted,
{
}

/// What the caller is told of a failed commit, and what the operation
/// returns: `Ok(false)` where the commit was cut short, the failure text
/// where the engine rejected it.
#[derive(Debug, PartialEq, Eq)]
pub struct CommitReport {
    pub event: StreamEvent,
    pub result: Result<bool, String>,
}

/// The failure text for a rejected commit.
pub open spec fn commit_failure_message(error: Seq<char>) -> Seq<char> {
    "Failed to commit transaction: "@ + error
}

/// The terminal record for a classified commit failure.
pub open spec fn report_event(
    class: CommitOutcomeView,
    timeout_secs: u64,
    interrupted_message: Seq<char>,
) -> StreamEventView {
    match class {
        CommitOutcomeView::Interrupted => complete_view(false, interrupted_message),
        CommitOutcomeView::TimedOut => complete_view(false, timed_out_message(timeout_secs)),
        CommitOutcomeView::Failed(error) => complete_view(false, commit_failure_message(error)),
        CommitOutcomeView::Committed => complete_view(true, Seq::empty()),
    }
}

/// The result handed back for a classified commit failure.
pub open spec fn report_result(class: CommitOutcomeView) -> Result<bool, Seq<char>> {
    match class {
        CommitOutcomeView::Interrupted => Ok(false),
        CommitOutcomeView::TimedOut => Ok(false),
        CommitOutcomeView::Failed(error) => Err(commit_failure_message(error)),
        CommitOutcomeView::Committed => Ok(true),
    }
}

/// The content of a report's result.
pub open spec fn result_text(r: Result<bool, String>) -> Result<bool, Seq<char>> {
    match r {
        Ok(b) => Ok(b),
        Err(e) => Err(e@),
    }
}

/// Turns a classified commit into the record to stream and the result to
/// return.
pub fn report_outcome(outcome: &CommitOutcome, timeout_secs: u64, interrupted_message: &str) -> (report:
    CommitReport)
    ensures
        report.event@ == report_event(outcome@, timeout_secs, interrupted_message@),
        result_text(report.result) == report_result(outcome@),
{
    match outcome {
        CommitOutcome::Interrupted => CommitReport {
            event: complete(false, String::from_str(interrupted_message)),
            result: Ok(false),
        },
        CommitOutcome::TimedOut => CommitReport {
            event: complete(false, timed_out_text(timeout_secs)),
            result: Ok(false),
        },
        CommitOutcome::Failed(error) => CommitReport {
            event: complete(false, concat("Failed to commit transaction: ", error.as_str())),
            result: Err(concat("Failed to commit transaction: ", error.as_str())),
        },
        CommitOutcome::Committed => CommitReport {
            event: complete(true, String::new()),
            result: Ok(true),
        },
    }
}

/// Handles a commit error: samples the token and the deadline, classifies
/// the failure and builds the report. The sample is not known beforehand, so
/// the contract states what holds of every sample: the record is always a
/// failed terminal record; an error text that names an interruption always
/// gives `Ok(false)` with `interrupted_message`; flags that were already up
/// before the commit never turn a plain failure into anything else.
pub fn handle_commit_error(
    err_msg: &str,
    was_cancelled_before: bool,
    was_timed_out_before: bool,
    token: &CancellationToken,
    timeout: &TimeoutGuard,
    interrupted_message: &str,
) -> (report: CommitReport)
    ensures
        exists|cancelled_after: bool, timed_out_after: bool|
            {
                let class = #[trigger] failure_class(
                    err_msg@,
                    unicode_lowercase(err_msg@),
                    was_cancelled_before,
                    cancelled_after,
                    was_timed_out_before,
                    timed_out_after,
                );
                &&& report.event@ == report_event(class, timeout.limit(), interrupted_message@)
                &&& result_text(report.result) == report_result(class)
            },
        names_interruption(unicode_lowercase(err_msg@)) ==> {
            &&& report.result == Ok::<bool, String>(false)
            &&& report.event@ == complete_view(false, interrupted_message@)
        },
        was_cancelled_before && was_timed_out_before && !names_interruption(
            unicode_lowercase(err_msg@),
        ) ==> result_text(report.result) == Err::<bool, Seq<char>>(
            commit_failure_message(err_msg@),
        ),
{
    let cancelled_after = is_cancelled(token);
    let timed_out_after = timeout.is_timed_out();
    let outcome = classify_commit_failure(
        err_msg,
        was_cancelled_before,
        cancelled_after,
        was_timed_out_before,
        timed_out_after,
    );
    report_outcome(&outcome, timeout.timeout_secs(), interrupted_message)
}

} // verus!
