//! The driver that refreshes the package databases.

use vstd::prelude::*;
use vstd::string::*;

use crate::cancel::{
    cancellation_record, check_state, check_verdict, emit_cancellation_complete,
    DEFAULT_MUTATION_TIMEOUT_SECS,
};
use crate::engine::{
    acquisitions, copy_status, ends_stream, event_views, exit, exit_with, no_records, one_record,
    releases, run_quietly, status_of, stream_of, EngineCommand, EngineCommandView, EngineReply,
    EngineReplyView, Phase, Step, StepView,
};
use crate::events::{
    complete, complete_plain, complete_plain_view, complete_view, StreamEvent, StreamEventView,
};
use crate::protocol::{
    lemma_asks_at_most_once, lemma_release_balance, lemma_stream_is_finished, run_of, Machine,
    Streaming,
};

verus! {

/// The state of one refresh of the databases.
pub struct SyncRun {
    phase: Phase,
    force: bool,
    timeout_secs: u64,
    pending: Result<(), String>,
}

/// The mathematical content of a [`SyncRun`].
pub struct SyncRunView {
    pub phase: Phase,
    /// Whether databases that look current are fetched again.
    pub force: bool,
    /// The limit that the deadline was made with.
    pub timeout_secs: u64,
    /// The result that the run ended with.
    pub pending: Result<(), Seq<char>>,
}

/// The state before anything was asked of the engine.
pub open spec fn sync_start(force: bool, timeout_secs: u64) -> SyncRunView {
    SyncRunView { phase: Phase::Start, force, timeout_secs, pending: Ok(()) }
}

/// The move that ends the run.
pub open spec fn sync_stop(s: SyncRunView, emit: Seq<StreamEventView>, result: Result<
    (),
    Seq<char>,
>) -> (SyncRunView, StepView) {
    (SyncRunView { phase: Phase::Done, pending: result, ..s }, exit_with(emit, result))
}

/// One move of the refresh. The flags are looked at before the engine is
/// opened and again when the refresh returns; a flag that is up then
/// outranks the outcome of the refresh.
pub open spec fn sync_step(s: SyncRunView, r: EngineReplyView) -> (SyncRunView, StepView) {
    let stopped = cancellation_record(check_verdict(r.cancelled, r.timed_out, s.timeout_secs));
    match s.phase {
        Phase::Start => match stopped {
            Some(record) => sync_stop(s, seq![record], Ok(())),
            None => (
                SyncRunView { phase: Phase::Opening, ..s },
                run_quietly(EngineCommandView::OpenHandle),
            ),
        },
        Phase::Opening => match r.error {
            Some(e) => sync_stop(s, seq![complete_view(false, e)], Err(e)),
            None => (
                SyncRunView { phase: Phase::Syncing, ..s },
                run_quietly(EngineCommandView::SyncDatabases { force: s.force }),
            ),
        },
        Phase::Syncing => match stopped {
            Some(record) => sync_stop(s, seq![record], Ok(())),
            None => match r.error {
                Some(e) => sync_stop(s, seq![complete_view(false, e)], Err(e)),
                None => sync_stop(s, seq![complete_plain_view(true)], Ok(())),
            },
        },
        _ => sync_stop(s, Seq::empty(), s.pending),
    }
}

impl View for SyncRun {
    type V = SyncRunView;

    closed spec fn view(&self) -> SyncRunView {
        SyncRunView {
            phase: self.phase,
            force: self.force,
            timeout_secs: self.timeout_secs,
            pending: status_of(self.pending),
        }
    }
}

impl SyncRun {
    /// A refresh with `timeout_secs` seconds, or the default where none is
    /// given.
    pub fn new(force: bool, timeout_secs: Option<u64>) -> (run: SyncRun)
        ensures
            run@ == sync_start(
                force,
                match timeout_secs {
                    Some(secs) => secs,
                    None => DEFAULT_MUTATION_TIMEOUT_SECS,
                },
            ),
    {
        let secs = match timeout_secs {
            Some(secs) => secs,
            None => DEFAULT_MUTATION_TIMEOUT_SECS,
        };
        SyncRun { phase: Phase::Start, force, timeout_secs: secs, pending: Ok(()) }
    }

    /// Whether the run has ended.
    pub fn is_done(&self) -> (r: bool)
        ensures
            r == (self@.phase == Phase::Done),
    {
        match self.phase {
            Phase::Done => true,
            _ => false,
        }
    }

    /// Ends the run.
    fn stop(self, emit: Vec<StreamEvent>, result: Result<(), String>) -> (out: (SyncRun, Step))
        ensures
            (out.0@, out.1@) == sync_stop(self@, event_views(emit@), status_of(result)),
    {
        let step = exit(emit, copy_status(&result));
        (SyncRun { phase: Phase::Done, pending: result, ..self }, step)
    }
}

/// Whether what was looked up in the repositories before `command` ran
/// is out of date once the reply `r` to it is in: a refresh of the
/// databases that succeeded has replaced what the repositories offer. A
/// refresh that failed, and every other command, leaves it in force.
pub open spec fn outdates_repo_map(command: EngineCommandView, r: EngineReplyView) -> bool {
    command is SyncDatabases && r.error is None
}

/// Says whether a lookup of repository names that was kept from before
/// `command` ran must be thrown away now that `reply` is in. Whoever keeps
/// such a lookup asks this after every command and discards the lookup
/// where the answer is yes, so that a name is never resolved against
/// databases that a refresh has since replaced.
pub fn repo_map_is_stale(command: &EngineCommand, reply: &EngineReply) -> (stale: bool)
    ensures
        stale == outdates_repo_map(command@, reply@),
{
    match command {
        EngineCommand::SyncDatabases { .. } => reply.error.is_none(),
        _ => false,
    }
}

/// The command that a refresh hands out once the engine is open is one
/// whose success puts the lookup of repository names out of date, whether
/// or not a flag was raised meanwhile.
pub proof fn lemma_refresh_outdates_repo_map(
    s: SyncRunView,
    opened: EngineReplyView,
    r: EngineReplyView,
)
    requires
        s.phase == Phase::Opening,
        opened.error is None,
        r.error is None,
    ensures
        sync_step(s, opened).1.next matches crate::engine::DirectiveView::Run(command)
            && outdates_repo_map(command, r),
{
}

/// Makes one move of the refresh: takes the reply to the command handed out
/// last (for the first move, a reply that carries the flags as they stand)
/// and says what to stream and what to do next.
pub fn sync_database(run: SyncRun, reply: &EngineReply) -> (out: (SyncRun, Step))
    ensures
        (out.0@, out.1@) == sync_step(run@, reply@),
{
    let verdict = check_state(reply.cancelled, reply.timed_out, run.timeout_secs);
    let stopped = emit_cancellation_complete(&verdict);
    match run.phase {
        Phase::Start => match stopped {
            Some(record) => run.stop(one_record(record), Ok(())),
            None => (
                SyncRun { phase: Phase::Opening, ..run },
                crate::engine::run(EngineCommand::OpenHandle),
            ),
        },
        Phase::Opening => match &reply.error {
            Some(e) => run.stop(one_record(complete(false, e.clone())), Err(e.clone())),
            None => {
                let force = run.force;
                (
                    SyncRun { phase: Phase::Syncing, ..run },
                    crate::engine::run(EngineCommand::SyncDatabases { force }),
                )
            },
        },
        Phase::Syncing => match stopped {
            Some(record) => run.stop(one_record(record), Ok(())),
            None => match &reply.error {
                Some(e) => run.stop(one_record(complete(false, e.clone())), Err(e.clone())),
                None => run.stop(one_record(complete_plain(true)), Ok(())),
            },
        },
        _ => {
            let result = copy_status(&run.pending);
            run.stop(no_records(), result)
        },
    }
}

impl Machine for SyncRunView {
    open spec fn advance(self, r: EngineReplyView) -> (Self, StepView) {
        sync_step(self, r)
    }

    open spec fn valid(self) -> bool {
        true
    }

    open spec fn holds_transaction(self) -> bool {
        false
    }

    open spec fn awaits_transaction(self) -> bool {
        false
    }

    open spec fn may_ask(self) -> bool {
        false
    }

    open spec fn ended(self) -> bool {
        self.phase != Phase::Start && self.phase != Phase::Opening && self.phase != Phase::Syncing
    }

    proof fn lemma_advance(self, r: EngineReplyView) {
    }
}

impl Streaming for SyncRunView {
    open spec fn completed(self) -> bool {
        self.ended()
    }

    proof fn lemma_stream(self, r: EngineReplyView) {
    }
}

/// A refresh never starts a transaction, so it has none to give up.
pub proof fn lemma_sync_has_no_transaction(force: bool, timeout_secs: u64, replies: Seq<
    EngineReplyView,
>)
    requires
        run_of(sync_start(force, timeout_secs), replies).state.phase == Phase::Done,
    ensures
        releases(run_of(sync_start(force, timeout_secs), replies).steps) == 0,
        acquisitions(run_of(sync_start(force, timeout_secs), replies).steps, replies) == 0,
{
    let start = sync_start(force, timeout_secs);
    lemma_release_balance(start, replies);
    lemma_asks_at_most_once(start, replies);
}

/// Whatever the engine replies, what a refresh that has ended has streamed
/// is a finished stream: exactly one terminal record, and it is the last.
pub proof fn lemma_sync_completes_exactly_once(force: bool, timeout_secs: u64, replies: Seq<
    EngineReplyView,
>)
    requires
        run_of(sync_start(force, timeout_secs), replies).state.phase == Phase::Done,
    ensures
        ends_stream(stream_of(run_of(sync_start(force, timeout_secs), replies).steps)),
{
    lemma_stream_is_finished(sync_start(force, timeout_secs), replies);
}

} // verus!
