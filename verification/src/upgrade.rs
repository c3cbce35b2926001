//! The driver of a full system upgrade.
//!
//! The driver opens the engine, sets the ignored packages aside, starts a
//! transaction, stages the upgrade, resolves it and applies it. Between the
//! phases it looks at the two flags of the reply in hand; a flag that is up
//! ends the run before the next phase begins. The look before the commit is
//! the last: once the commit runs, the flags are read again only to tell
//! how a failed commit ended. Whatever happens, a transaction that was
//! started is given up exactly once, and the caller is sent exactly one
//! terminal record, after which nothing more is streamed.

use vstd::prelude::*;
use vstd::string::*;

use crate::cancel::{
    cancellation_record, check_state, check_verdict, emit_cancellation_complete,
    DEFAULT_MUTATION_TIMEOUT_SECS,
};
use crate::commit::{
    classify_commit_failure, commit_failure_message, failure_class, CommitOutcome,
    CommitOutcomeView,
};
use crate::engine::{
    acquisitions, copy_status, emit_and_run, ends_stream, event_views, exit, exit_with, is_commit,
    no_records, one_record, releases, run, run_after, run_quietly, status_of, stream_of,
    EngineCommand, EngineCommandView, EngineReply, EngineReplyView, Phase, Step, StepView,
};
use crate::protocol::{
    lemma_asks_at_most_once, lemma_release_balance, lemma_stream_is_finished, run_of, Machine,
    Streaming,
};
use crate::errors::classified;
use crate::events::{
    complete, complete_plain, complete_plain_view, complete_view, timed_out_message, timed_out_text,
    StreamEvent, StreamEventView,
};
use crate::text::{concat, concat3, unicode_lowercase, views};
use crate::transaction::{init_failure_message, GuardState, TransactionGuard};

verus! {

/// The state of one upgrade.
pub struct UpgradeRun {
    phase: Phase,
    ignore: Vec<String>,
    timeout_secs: u64,
    guard: TransactionGuard,
    pending: Result<(), String>,
}

/// The mathematical content of an [`UpgradeRun`].
pub struct UpgradeRunView {
    pub phase: Phase,
    /// The packages to leave out.
    pub ignore: Seq<Seq<char>>,
    /// The limit that the deadline was made with.
    pub timeout_secs: u64,
    /// Where the transaction stands.
    pub guard: GuardState,
    /// The result to end with once the transaction is given up.
    pub pending: Result<(), Seq<char>>,
}

/// The state before anything was asked of the engine.
pub open spec fn upgrade_start(ignore: Seq<Seq<char>>, timeout_secs: u64) -> UpgradeRunView {
    UpgradeRunView {
        phase: Phase::Start,
        ignore,
        timeout_secs,
        guard: GuardState::Vacant,
        pending: Ok(()),
    }
}

/// The states that a run can be in: the guard holds the transaction in the
/// phases between its start and its release, and in no other.
pub open spec fn upgrade_wf(s: UpgradeRunView) -> bool {
    match s.phase {
        Phase::Start | Phase::Opening | Phase::Initializing => s.guard == GuardState::Vacant,
        Phase::Ignoring(i) => s.guard == GuardState::Vacant && i < s.ignore.len(),
        Phase::Staging(_) | Phase::Preparing | Phase::Committing => s.guard == GuardState::Held,
        Phase::Releasing => s.guard == GuardState::Released,
        Phase::Done => s.guard != GuardState::Held,
        Phase::Syncing | Phase::Listing => false,
    }
}

/// The text of the terminal record for an interrupted upgrade.
pub open spec fn upgrade_interrupted_message() -> Seq<char> {
    "Operation interrupted - system may be in inconsistent state"@
}

/// The text of the terminal record for an upgrade whose deadline passed
/// while the commit ran.
pub open spec fn upgrade_timed_out_message(secs: u64) -> Seq<char> {
    timed_out_message(secs) + " - system may be in inconsistent state"@
}

/// The terminal record for a failed commit of the given class.
pub open spec fn upgrade_commit_record(class: CommitOutcomeView, timeout_secs: u64) -> StreamEventView {
    match class {
        CommitOutcomeView::Interrupted => complete_view(false, upgrade_interrupted_message()),
        CommitOutcomeView::TimedOut => complete_view(false, upgrade_timed_out_message(timeout_secs)),
        CommitOutcomeView::Failed(error) => complete_view(false, commit_failure_message(error)),
        CommitOutcomeView::Committed => complete_plain_view(true),
    }
}

/// The move that ends a run which holds no transaction.
pub open spec fn upgrade_stop(s: UpgradeRunView, emit: Seq<StreamEventView>, result: Result<
    (),
    Seq<char>,
>) -> (UpgradeRunView, StepView) {
    (UpgradeRunView { phase: Phase::Done, pending: result, ..s }, exit_with(emit, result))
}

/// The move that ends a run which holds the transaction: the record is
/// streamed, the transaction is given up, and the result waits for that.
pub open spec fn upgrade_stop_held(s: UpgradeRunView, event: StreamEventView, result: Result<
    (),
    Seq<char>,
>) -> (UpgradeRunView, StepView) {
    (
        UpgradeRunView {
            phase: Phase::Releasing,
            guard: GuardState::Released,
            pending: result,
            ..s
        },
        run_after(event, EngineCommandView::Release),
    )
}

/// The move at a phase boundary of a run that holds the transaction: on a
/// raised flag the run ends, else it goes on to `phase` with `command`.
pub open spec fn upgrade_boundary(
    s: UpgradeRunView,
    r: EngineReplyView,
    phase: Phase,
    command: EngineCommandView,
) -> (UpgradeRunView, StepView) {
    match cancellation_record(check_verdict(r.cancelled, r.timed_out, s.timeout_secs)) {
        Some(record) => upgrade_stop_held(s, record, Ok(())),
        None => (UpgradeRunView { phase, ..s }, run_quietly(command)),
    }
}

/// The move once the engine is open and the first `done` ignored packages
/// are set aside: the next one is set aside, or, when none is left, the
/// flags are looked at and the transaction is started.
pub open spec fn upgrade_after_setup(s: UpgradeRunView, r: EngineReplyView, done: int) -> (
    UpgradeRunView,
    StepView,
) {
    if 0 <= done < s.ignore.len() {
        (
            UpgradeRunView { phase: Phase::Ignoring(done as usize), ..s },
            run_quietly(EngineCommandView::IgnorePackage(s.ignore[done])),
        )
    } else {
        match cancellation_record(check_verdict(r.cancelled, r.timed_out, s.timeout_secs)) {
            Some(record) => upgrade_stop(s, seq![record], Ok(())),
            None => (
                UpgradeRunView { phase: Phase::Initializing, ..s },
                run_quietly(EngineCommandView::InitTransaction { recurse: false }),
            ),
        }
    }
}

/// One move of the upgrade: the state after the reply `r` and what is
/// wanted next.
pub open spec fn upgrade_step(s: UpgradeRunView, r: EngineReplyView) -> (UpgradeRunView, StepView) {
    match s.phase {
        Phase::Start => (
            UpgradeRunView { phase: Phase::Opening, ..s },
            run_quietly(EngineCommandView::OpenHandle),
        ),
        Phase::Opening => match r.error {
            Some(e) => upgrade_stop(s, seq![complete_view(false, e)], Err(e)),
            None => upgrade_after_setup(s, r, 0),
        },
        Phase::Ignoring(i) => match r.error {
            Some(e) => upgrade_stop(
                s,
                seq![
                    complete_view(
                        false,
                        "Failed to ignore package "@ + (if i < s.ignore.len() {
                            s.ignore[i as int]
                        } else {
                            Seq::empty()
                        }) + ": "@ + e,
                    ),
                ],
                Err(e),
            ),
            None => upgrade_after_setup(s, r, i + 1),
        },
        Phase::Initializing => match r.error {
            Some(e) => {
                let text = classified(init_failure_message(e)).message;
                upgrade_stop(s, seq![complete_view(false, text)], Err(text))
            },
            None => upgrade_boundary(
                UpgradeRunView { guard: GuardState::Held, ..s },
                r,
                Phase::Staging(0),
                EngineCommandView::StageUpgrade { allow_downgrade: false },
            ),
        },
        Phase::Staging(_) => match r.error {
            Some(e) => upgrade_stop_held(
                s,
                complete_view(false, "Failed to prepare system upgrade: "@ + e),
                Err(e),
            ),
            None => upgrade_boundary(s, r, Phase::Preparing, EngineCommandView::Prepare),
        },
        Phase::Preparing => match r.error {
            Some(e) => upgrade_stop_held(
                s,
                complete_view(false, "Failed to prepare transaction: "@ + e),
                Err("Failed to prepare transaction: "@ + e),
            ),
            None => if r.plan.add_count == 0 && r.plan.remove_count == 0 {
                upgrade_stop_held(s, complete_view(true, "System is up to date"@), Ok(()))
            } else {
                upgrade_boundary(s, r, Phase::Committing, EngineCommandView::Commit)
            },
        },
        Phase::Committing => match r.error {
            Some(e) => upgrade_stop_held(
                s,
                upgrade_commit_record(
                    failure_class(e, unicode_lowercase(e), false, r.cancelled, false, r.timed_out),
                    s.timeout_secs,
                ),
                Err(commit_failure_message(e)),
            ),
            None => upgrade_stop_held(s, complete_plain_view(true), Ok(())),
        },
        Phase::Releasing => upgrade_stop(s, Seq::empty(), s.pending),
        _ => upgrade_stop(s, Seq::empty(), s.pending),
    }
}

impl View for UpgradeRun {
    type V = UpgradeRunView;

    closed spec fn view(&self) -> UpgradeRunView {
        UpgradeRunView {
            phase: self.phase,
            ignore: views(self.ignore@),
            timeout_secs: self.timeout_secs,
            guard: self.guard.state(),
            pending: status_of(self.pending),
        }
    }
}

impl UpgradeRun {
    #[verifier::type_invariant]
    spec fn well_formed(self) -> bool {
        upgrade_wf(self@)
    }

    /// A run that leaves the packages `ignore_pkgs` out and has
    /// `timeout_secs` seconds, or the default where none is given.
    pub fn new(ignore_pkgs: Vec<String>, timeout_secs: Option<u64>) -> (run: UpgradeRun)
        ensures
            run@ == upgrade_start(
                views(ignore_pkgs@),
                match timeout_secs {
                    Some(secs) => secs,
                    None => DEFAULT_MUTATION_TIMEOUT_SECS,
                },
            ),
    {
        let secs = match timeout_secs {
            Some(secs) => secs,
            None => DEFAULT_MUTATION_TIMEOUT_SECS,
        };
        UpgradeRun {
            phase: Phase::Start,
            ignore: ignore_pkgs,
            timeout_secs: secs,
            guard: TransactionGuard::vacant(),
            pending: Ok(()),
        }
    }

    /// Whether the run has ended.
    pub fn is_done(&self) -> (r: bool)
        ensures
            r == (self@.phase == Phase::Done),
    {
        match self.phase {
            Phase::Done => true,
            _ => false,
        }
    }

    /// Ends a run that holds no transaction.
    fn stop(self, emit: Vec<StreamEvent>, result: Result<(), String>) -> (out: (UpgradeRun, Step))
        requires
            self.guard.state() != GuardState::Held,
        ensures
            (out.0@, out.1@) == upgrade_stop(self@, event_views(emit@), status_of(result)),
    {
        let step = exit(emit, copy_status(&result));
        (UpgradeRun { phase: Phase::Done, pending: result, ..self }, step)
    }

    /// Ends a run that holds the transaction.
    fn stop_held(self, event: StreamEvent, result: Result<(), String>) -> (out: (UpgradeRun, Step))
        requires
            self.guard.is_held(),
        ensures
            (out.0@, out.1@) == upgrade_stop_held(self@, event@, status_of(result)),
    {
        let mut guard = self.guard;
        let command = match guard.release() {
            Some(command) => command,
            None => EngineCommand::Release,
        };
        (
            UpgradeRun {
                phase: Phase::Releasing,
                ignore: self.ignore,
                timeout_secs: self.timeout_secs,
                guard,
                pending: result,
            },
            emit_and_run(event, command),
        )
    }

    /// Looks at the flags at a phase boundary of a run that holds the
    /// transaction.
    fn boundary(self, reply: &EngineReply, phase: Phase, command: EngineCommand) -> (out: (
        UpgradeRun,
        Step,
    ))
        requires
            self.guard.is_held(),
            phase matches Phase::Staging(_) || phase == Phase::Preparing || phase
                == Phase::Committing,
        ensures
            (out.0@, out.1@) == upgrade_boundary(self@, reply@, phase, command@),
    {
        let verdict = check_state(reply.cancelled, reply.timed_out, self.timeout_secs);
        match emit_cancellation_complete(&verdict) {
            Some(record) => self.stop_held(record, Ok(())),
            None => (UpgradeRun { phase, ..self }, run(command)),
        }
    }

    /// Goes on once the engine is open and `done` packages are set aside.
    fn after_setup(self, reply: &EngineReply, done: usize) -> (out: (UpgradeRun, Step))
        requires
            self.guard.state() == GuardState::Vacant,
        ensures
            (out.0@, out.1@) == upgrade_after_setup(self@, reply@, done as int),
    {
        if done < self.ignore.len() {
            let command = EngineCommand::IgnorePackage(self.ignore[done].clone());
            (UpgradeRun { phase: Phase::Ignoring(done), ..self }, run(command))
        } else {
            let verdict = check_state(reply.cancelled, reply.timed_out, self.timeout_secs);
            match emit_cancellation_complete(&verdict) {
                Some(record) => self.stop(one_record(record), Ok(())),
                None => (
                    UpgradeRun { phase: Phase::Initializing, ..self },
                    run(EngineCommand::InitTransaction { recurse: false }),
                ),
            }
        }
    }
}

/// The terminal record for a failed commit of an upgrade.
fn commit_record(outcome: &CommitOutcome, timeout_secs: u64) -> (e: StreamEvent)
    ensures
        e@ == upgrade_commit_record(outcome@, timeout_secs),
{
    match outcome {
        CommitOutcome::Interrupted => complete(
            false,
            String::from_str("Operation interrupted - system may be in inconsistent state"),
        ),
        CommitOutcome::TimedOut => {
            let base = timed_out_text(timeout_secs);
            complete(false, concat(base.as_str(), " - system may be in inconsistent state"))
        },
        CommitOutcome::Failed(error) => complete(
            false,
            concat("Failed to commit transaction: ", error.as_str()),
        ),
        CommitOutcome::Committed => complete_plain(true),
    }
}

/// Makes one move of the upgrade: takes the reply to the command handed out
/// last (any reply will do for the first move) and says what to stream and
/// what to do next.
pub fn run_upgrade(run: UpgradeRun, reply: &EngineReply) -> (out: (UpgradeRun, Step))
    ensures
        (out.0@, out.1@) == upgrade_step(run@, reply@),
{
    proof {
        use_type_invariant(&run);
    }
    match run.phase {
        Phase::Start => (
            UpgradeRun { phase: Phase::Opening, ..run },
            crate::engine::run(EngineCommand::OpenHandle),
        ),
        Phase::Opening => match &reply.error {
            Some(e) => run.stop(one_record(complete(false, e.clone())), Err(e.clone())),
            None => run.after_setup(reply, 0),
        },
        Phase::Ignoring(i) => match &reply.error {
            Some(e) => {
                let mut text = concat3("Failed to ignore package ", run.ignore[i].as_str(), ": ");
                text.append(e.as_str());
                run.stop(one_record(complete(false, text)), Err(e.clone()))
            },
            None => {
                let count = run.ignore.len();
                assert(i < count);
                run.after_setup(reply, i + 1)
            },
        },
        Phase::Initializing => match TransactionGuard::new(&reply.error) {
            Err(error) => {
                let text = error.text();
                run.stop(one_record(complete(false, error.text())), Err(text))
            },
            Ok(guard) => {
                let held = UpgradeRun {
                    phase: Phase::Staging(0),
                    ignore: run.ignore,
                    timeout_secs: run.timeout_secs,
                    guard,
                    pending: run.pending,
                };
                let command = held.guard.sync_sysupgrade(false);
                held.boundary(reply, Phase::Staging(0), command)
            },
        },
        Phase::Staging(_) => match &reply.error {
            Some(e) => run.stop_held(
                complete(false, concat("Failed to prepare system upgrade: ", e.as_str())),
                Err(e.clone()),
            ),
            None => {
                let command = run.guard.prepare();
                run.boundary(reply, Phase::Preparing, command)
            },
        },
        Phase::Preparing => match &reply.error {
            Some(e) => run.stop_held(
                complete(false, concat("Failed to prepare transaction: ", e.as_str())),
                Err(concat("Failed to prepare transaction: ", e.as_str())),
            ),
            None => if reply.plan.add_count == 0 && reply.plan.remove_count == 0 {
                run.stop_held(complete(true, String::from_str("System is up to date")), Ok(()))
            } else {
                let command = run.guard.commit();
                run.boundary(reply, Phase::Committing, command)
            },
        },
        Phase::Committing => match &reply.error {
            Some(e) => {
                let outcome = classify_commit_failure(
                    e.as_str(),
                    false,
                    reply.cancelled,
                    false,
                    reply.timed_out,
                );
                let record = commit_record(&outcome, run.timeout_secs);
                run.stop_held(record, Err(concat("Failed to commit transaction: ", e.as_str())))
            },
            None => run.stop_held(complete_plain(true), Ok(())),
        },
        Phase::Releasing => {
            let result = copy_status(&run.pending);
            run.stop(no_records(), result)
        },
        _ => {
            let result = copy_status(&run.pending);
            run.stop(no_records(), result)
        },
    }
}

/// Whether the terminal record of the run has been streamed.
pub open spec fn upgrade_completed(s: UpgradeRunView) -> bool {
    s.phase == Phase::Releasing || s.phase == Phase::Done
}

impl Machine for UpgradeRunView {
    open spec fn advance(self, r: EngineReplyView) -> (Self, StepView) {
        upgrade_step(self, r)
    }

    open spec fn valid(self) -> bool {
        upgrade_wf(self)
    }

    open spec fn holds_transaction(self) -> bool {
        self.guard == GuardState::Held
    }

    open spec fn awaits_transaction(self) -> bool {
        self.phase == Phase::Initializing
    }

    open spec fn may_ask(self) -> bool {
        self.phase == Phase::Start || self.phase == Phase::Opening || self.phase is Ignoring
    }

    open spec fn ended(self) -> bool {
        self.phase == Phase::Done
    }

    proof fn lemma_advance(self, r: EngineReplyView) {
    }
}

impl Streaming for UpgradeRunView {
    open spec fn completed(self) -> bool {
        upgrade_completed(self)
    }

    proof fn lemma_stream(self, r: EngineReplyView) {
    }
}

/// A commit is asked for in one situation only: the transaction is held,
/// it was resolved without error, it has something to do, and neither flag
/// was up when the resolution returned.
pub proof fn lemma_upgrade_commit_is_guarded(s: UpgradeRunView, r: EngineReplyView)
    requires
        upgrade_wf(s),
        is_commit(upgrade_step(s, r).1),
    ensures
        s.phase == Phase::Preparing,
        s.guard == GuardState::Held,
        r.error is None,
        !r.cancelled,
        !r.timed_out,
        r.plan.add_count != 0 || r.plan.remove_count != 0,
{
}

/// A transaction that resolves to nothing is never applied: the caller is
/// told that the system is up to date and the transaction is given up.
pub proof fn lemma_upgrade_empty_plan_is_not_committed(s: UpgradeRunView, r: EngineReplyView)
    requires
        upgrade_wf(s),
        s.phase == Phase::Preparing,
        r.error is None,
        r.plan.add_count == 0,
        r.plan.remove_count == 0,
    ensures
        upgrade_step(s, r).1 == run_after(
            complete_view(true, "System is up to date"@),
            EngineCommandView::Release,
        ),
        upgrade_step(s, r).0.pending == Ok::<(), Seq<char>>(()),
{
}

/// A failed commit during which cancellation arrived is reported as an
/// interruption that may have left the system inconsistent, and the run
/// ends in failure.
pub proof fn lemma_upgrade_interrupted_commit(s: UpgradeRunView, r: EngineReplyView)
    requires
        upgrade_wf(s),
        s.phase == Phase::Committing,
        r.error is Some,
        r.cancelled,
    ensures
        upgrade_step(s, r).1 == run_after(
            complete_view(false, upgrade_interrupted_message()),
            EngineCommandView::Release,
        ),
        upgrade_step(s, r).0.pending is Err,
{
}

/// Whatever the engine replies, and whichever of its calls fail, an
/// upgrade that has ended gave its transaction up exactly once if the
/// engine had started one, and never otherwise.
pub proof fn lemma_upgrade_releases_exactly_once(
    ignore: Seq<Seq<char>>,
    timeout_secs: u64,
    replies: Seq<EngineReplyView>,
)
    requires
        run_of(upgrade_start(ignore, timeout_secs), replies).state.phase == Phase::Done,
    ensures
        ({
            let steps = run_of(upgrade_start(ignore, timeout_secs), replies).steps;
            &&& acquisitions(steps, replies) <= 1
            &&& releases(steps) == acquisitions(steps, replies)
        }),
{
    let start = upgrade_start(ignore, timeout_secs);
    lemma_release_balance(start, replies);
    lemma_asks_at_most_once(start, replies);
}

/// Whatever the engine replies, what an upgrade that has ended has
/// streamed is a finished stream: exactly one terminal record, and it is
/// the last.
pub proof fn lemma_upgrade_completes_exactly_once(
    ignore: Seq<Seq<char>>,
    timeout_secs: u64,
    replies: Seq<EngineReplyView>,
)
    requires
        run_of(upgrade_start(ignore, timeout_secs), replies).state.phase == Phase::Done,
    ensures
        ends_stream(stream_of(run_of(upgrade_start(ignore, timeout_secs), replies).steps)),
{
    lemma_stream_is_finished(upgrade_start(ignore, timeout_secs), replies);
}

} // verus!
