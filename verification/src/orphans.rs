//! Orphan packages and the driver that removes them.
//!
//! An orphan is a package that was installed for the sake of another and
//! that no installed package needs or can use any longer. The driver finds
//! the orphans with a read-only query before it starts any transaction, and
//! stages exactly those for removal.

use vstd::prelude::*;
use vstd::string::*;

use crate::cancel::{
    cancellation_record, check_state, check_verdict, emit_cancellation_complete,
    DEFAULT_MUTATION_TIMEOUT_SECS,
};
use crate::commit::{
    classify_commit_failure, commit_failure_message, failure_class, report_event, report_outcome,
};
use crate::engine::{
    acquisitions, copy_status, ends_stream, event_views, exit, exit_with, no_records, one_record,
    package_views, releases, run, run_quietly, status_of, stream_of, Directive, DirectiveView,
    EngineCommand, EngineCommandView, EngineReply, EngineReplyView, InstalledPackage,
    InstalledPackageView, PackageReason, Phase, Step, StepView,
};
use crate::errors::classified;
use crate::events::{complete, complete_view, log, log_view, StreamEvent, StreamEventView};
use crate::protocol::{
    lemma_asks_at_most_once, lemma_release_balance, lemma_stream_is_finished, run_of, Machine,
    Streaming,
};
use crate::text::{concat, concat3, decimal, decimal_string, unicode_lowercase, views};
use crate::transaction::{init_failure_message, GuardState, TransactionGuard};

verus! {

/// Whether a package is an orphan: installed as a dependency, and neither
/// needed nor usable by any installed package.
pub open spec fn is_orphan(p: InstalledPackageView) -> bool {
    &&& p.reason == PackageReason::Depend
    &&& p.required_by.len() == 0
    &&& p.optional_for.len() == 0
}

/// The names of the orphans among `packages`, in the order of `packages`.
pub open spec fn orphan_names(packages: Seq<InstalledPackageView>) -> Seq<Seq<char>> {
    packages.filter(|p: InstalledPackageView| is_orphan(p)).map_values(
        |p: InstalledPackageView| p.name,
    )
}

/// Whether `p` is an orphan.
pub fn orphaned(p: &InstalledPackage) -> (r: bool)
    ensures
        r == is_orphan(p@),
{
    let dependency = match p.reason {
        PackageReason::Depend => true,
        PackageReason::Explicit => false,
    };
    dependency && p.required_by.len() == 0 && p.optional_for.len() == 0
}

/// The names of the orphans among `packages`, in the order of `packages`.
pub fn find_orphans(packages: &Vec<InstalledPackage>) -> (names: Vec<String>)
    ensures
        views(names@) == orphan_names(package_views(packages@)),
{
    let mut names: Vec<String> = Vec::new();
    let mut i: usize = 0;
    assert(views(names@) =~= orphan_names(package_views(packages@).take(0))) by {
        reveal(Seq::filter);
    }
    while i < packages.len()
        invariant
            i <= packages.len(),
            views(names@) == orphan_names(package_views(packages@).take(i as int)),
        decreases packages.len() - i,
    {
        let ghost before = package_views(packages@).take(i as int);
        let ghost after = package_views(packages@).take(i + 1);
        let ghost old_names = names@;
        proof {
            reveal(Seq::filter);
            assert(after.drop_last() =~= before);
            assert(after.last() == packages@[i as int]@);
        }
        if orphaned(&packages[i]) {
            names.push(packages[i].name.clone());
            assert(views(names@) =~= views(old_names).push(packages@[i as int]@.name));
            assert(orphan_names(after) =~= orphan_names(before).push(packages@[i as int]@.name));
        } else {
            assert(orphan_names(after) =~= orphan_names(before));
        }
        i += 1;
    }
    assert(package_views(packages@).take(packages@.len() as int) =~= package_views(packages@));
    names
}

/// A package that was installed as a dependency and that nothing needs or
/// can use is an orphan; a package that some installed package needs is
/// none, whatever the reason it was installed for.
pub proof fn lemma_orphan_rule(p: InstalledPackageView)
    ensures
        p.reason == PackageReason::Depend && p.required_by.len() == 0 && p.optional_for.len() == 0
            ==> is_orphan(p),
        p.required_by.len() > 0 ==> !is_orphan(p),
        p.optional_for.len() > 0 ==> !is_orphan(p),
        p.reason == PackageReason::Explicit ==> !is_orphan(p),
{
}

/// The state of one removal of orphans.
pub struct OrphanRun {
    phase: Phase,
    timeout_secs: u64,
    guard: TransactionGuard,
    pending: Result<(), String>,
    orphans: Vec<String>,
}

/// The mathematical content of an [`OrphanRun`].
pub struct OrphanRunView {
    pub phase: Phase,
    /// The limit that the deadline was made with.
    pub timeout_secs: u64,
    /// Where the transaction stands.
    pub guard: GuardState,
    /// The result to end with once the transaction is given up.
    pub pending: Result<(), Seq<char>>,
    /// The orphans found, once the packages are listed.
    pub orphans: Seq<Seq<char>>,
}

/// The state before anything was asked of the engine.
pub open spec fn orphans_start(timeout_secs: u64) -> OrphanRunView {
    OrphanRunView {
        phase: Phase::Start,
        timeout_secs,
        guard: GuardState::Vacant,
        pending: Ok(()),
        orphans: Seq::empty(),
    }
}

/// The states that a run can be in.
pub open spec fn orphans_wf(s: OrphanRunView) -> bool {
    match s.phase {
        Phase::Start | Phase::Opening | Phase::Listing => s.guard == GuardState::Vacant,
        Phase::Initializing => s.guard == GuardState::Vacant && s.orphans.len() > 0,
        Phase::Staging(i) => s.guard == GuardState::Held && i < s.orphans.len(),
        Phase::Preparing | Phase::Committing => s.guard == GuardState::Held,
        Phase::Releasing => s.guard == GuardState::Released,
        Phase::Done => s.guard != GuardState::Held,
        Phase::Ignoring(_) | Phase::Syncing => false,
    }
}

/// The text that reports how many orphans were removed.
pub open spec fn removed_message(count: nat) -> Seq<char> {
    "Removed "@ + decimal(count) + " orphan package(s)"@
}

/// The warning for a package that the engine would not mark for removal.
pub open spec fn staging_warning(name: Seq<char>, error: Seq<char>) -> StreamEventView {
    log_view("warning"@, "Failed to mark "@ + name + " for removal: "@ + error)
}

/// The move that ends a run which holds no transaction.
pub open spec fn orphans_stop(s: OrphanRunView, emit: Seq<StreamEventView>, result: Result<
    (),
    Seq<char>,
>) -> (OrphanRunView, StepView) {
    (OrphanRunView { phase: Phase::Done, pending: result, ..s }, exit_with(emit, result))
}

/// The move that ends a run which holds the transaction: the records are
/// streamed, the transaction is given up, and the result waits for that.
pub open spec fn orphans_stop_held(s: OrphanRunView, emit: Seq<StreamEventView>, result: Result<
    (),
    Seq<char>,
>) -> (OrphanRunView, StepView) {
    (
        OrphanRunView {
            phase: Phase::Releasing,
            guard: GuardState::Released,
            pending: result,
            ..s
        },
        StepView { emit, next: DirectiveView::Run(EngineCommandView::Release) },
    )
}

/// The move at a phase boundary of a run that holds the transaction: the
/// records in `first` are streamed; on a raised flag the run ends, else it
/// goes on to `phase` with `command`.
pub open spec fn orphans_boundary(
    s: OrphanRunView,
    r: EngineReplyView,
    first: Seq<StreamEventView>,
    phase: Phase,
    command: EngineCommandView,
) -> (OrphanRunView, StepView) {
    match cancellation_record(check_verdict(r.cancelled, r.timed_out, s.timeout_secs)) {
        Some(record) => orphans_stop_held(s, first.push(record), Ok(())),
        None => (
            OrphanRunView { phase, ..s },
            StepView { emit: first, next: DirectiveView::Run(command) },
        ),
    }
}

/// One move of the removal: the state after the reply `r` and what is
/// wanted next.
pub open spec fn orphans_step(s: OrphanRunView, r: EngineReplyView) -> (OrphanRunView, StepView) {
    match s.phase {
        Phase::Start => (
            OrphanRunView { phase: Phase::Opening, ..s },
            run_quietly(EngineCommandView::OpenHandle),
        ),
        Phase::Opening => match r.error {
            Some(e) => orphans_stop(s, seq![complete_view(false, e)], Err(e)),
            None => (
                OrphanRunView { phase: Phase::Listing, ..s },
                run_quietly(EngineCommandView::ListInstalled),
            ),
        },
        Phase::Listing => match r.error {
            Some(e) => orphans_stop(s, seq![complete_view(false, e)], Err(e)),
            None => {
                let found = OrphanRunView { orphans: orphan_names(r.installed), ..s };
                if found.orphans.len() == 0 {
                    orphans_stop(
                        found,
                        seq![complete_view(true, "No orphan packages to remove"@)],
                        Ok(()),
                    )
                } else {
                    match cancellation_record(
                        check_verdict(r.cancelled, r.timed_out, s.timeout_secs),
                    ) {
                        Some(record) => orphans_stop(found, seq![record], Ok(())),
                        None => (
                            OrphanRunView { phase: Phase::Initializing, ..found },
                            run_quietly(EngineCommandView::InitTransaction { recurse: true }),
                        ),
                    }
                }
            },
        },
        Phase::Initializing => match r.error {
            Some(e) => {
                let text = classified(init_failure_message(e)).message;
                orphans_stop(s, seq![complete_view(false, text)], Err(text))
            },
            None => orphans_boundary(
                OrphanRunView { guard: GuardState::Held, ..s },
                r,
                Seq::empty(),
                Phase::Staging(0),
                EngineCommandView::StageRemoval(
                    if s.orphans.len() > 0 {
                        s.orphans[0]
                    } else {
                        Seq::empty()
                    },
                ),
            ),
        },
        Phase::Staging(i) => {
            let warning = match r.error {
                Some(e) => seq![
                    staging_warning(
                        if i < s.orphans.len() {
                            s.orphans[i as int]
                        } else {
                            Seq::empty()
                        },
                        e,
                    ),
                ],
                None => Seq::empty(),
            };
            if i + 1 < s.orphans.len() {
                (
                    OrphanRunView { phase: Phase::Staging((i + 1) as usize), ..s },
                    StepView {
                        emit: warning,
                        next: DirectiveView::Run(EngineCommandView::StageRemoval(s.orphans[i + 1])),
                    },
                )
            } else {
                orphans_boundary(s, r, warning, Phase::Preparing, EngineCommandView::Prepare)
            }
        },
        Phase::Preparing => match r.error {
            Some(e) => orphans_stop_held(
                s,
                seq![complete_view(false, "Failed to prepare transaction: "@ + e)],
                Err("Failed to prepare transaction: "@ + e),
            ),
            None => if r.plan.remove_count == 0 {
                orphans_stop_held(s, seq![complete_view(true, "No packages to remove"@)], Ok(()))
            } else {
                orphans_boundary(
                    s,
                    r,
                    Seq::empty(),
                    Phase::Committing,
                    EngineCommandView::Commit,
                )
            },
        },
        Phase::Committing => match r.error {
            Some(e) => orphans_stop_held(
                s,
                seq![
                    report_event(
                        failure_class(
                            e,
                            unicode_lowercase(e),
                            false,
                            r.cancelled,
                            false,
                            r.timed_out,
                        ),
                        s.timeout_secs,
                        "Operation interrupted"@,
                    ),
                ],
                Err(commit_failure_message(e)),
            ),
            None => orphans_stop_held(
                s,
                seq![complete_view(true, removed_message(s.orphans.len()))],
                Ok(()),
            ),
        },
        _ => orphans_stop(s, Seq::empty(), s.pending),
    }
}

impl View for OrphanRun {
    type V = OrphanRunView;

    closed spec fn view(&self) -> OrphanRunView {
        OrphanRunView {
            phase: self.phase,
            timeout_secs: self.timeout_secs,
            guard: self.guard.state(),
            pending: status_of(self.pending),
            orphans: views(self.orphans@),
        }
    }
}

impl OrphanRun {
    #[verifier::type_invariant]
    spec fn well_formed(self) -> bool {
        orphans_wf(self@)
    }

    /// A run with `timeout_secs` seconds, or the default where none is
    /// given.
    pub fn new(timeout_secs: Option<u64>) -> (run: OrphanRun)
        ensures
            run@ == orphans_start(
                match timeout_secs {
                    Some(secs) => secs,
                    None => DEFAULT_MUTATION_TIMEOUT_SECS,
                },
            ),
    {
        let secs = match timeout_secs {
            Some(secs) => secs,
            None => DEFAULT_MUTATION_TIMEOUT_SECS,
        };
        let run = OrphanRun {
            phase: Phase::Start,
            timeout_secs: secs,
            guard: TransactionGuard::vacant(),
            pending: Ok(()),
            orphans: Vec::new(),
        };
        assert(run@.orphans =~= Seq::empty());
        run
    }

    /// Whether the run has ended.
    pub fn is_done(&self) -> (r: bool)
        ensures
            r == (self@.phase == Phase::Done),
    {
        match self.phase {
            Phase::Done => true,
            _ => false,
        }
    }

    /// Ends a run that holds no transaction.
    fn stop(self, emit: Vec<StreamEvent>, result: Result<(), String>) -> (out: (OrphanRun, Step))
        requires
            self.guard.state() != GuardState::Held,
        ensures
            (out.0@, out.1@) == orphans_stop(self@, event_views(emit@), status_of(result)),
    {
        let step = exit(emit, copy_status(&result));
        (OrphanRun { phase: Phase::Done, pending: result, ..self }, step)
    }

    /// Ends a run that holds the transaction.
    fn stop_held(self, emit: Vec<StreamEvent>, result: Result<(), String>) -> (out: (
        OrphanRun,
        Step,
    ))
        requires
            self.guard.is_held(),
        ensures
            (out.0@, out.1@) == orphans_stop_held(self@, event_views(emit@), status_of(result)),
    {
        let mut guard = self.guard;
        let command = match guard.release() {
            Some(command) => command,
            None => EngineCommand::Release,
        };
        (
            OrphanRun {
                phase: Phase::Releasing,
                timeout_secs: self.timeout_secs,
                guard,
                pending: result,
                orphans: self.orphans,
            },
            Step { emit, next: Directive::Run(command) },
        )
    }

    /// Looks at the flags at a phase boundary of a run that holds the
    /// transaction.
    fn boundary(
        self,
        reply: &EngineReply,
        first: Vec<StreamEvent>,
        phase: Phase,
        command: EngineCommand,
    ) -> (out: (OrphanRun, Step))
        requires
            self.guard.is_held(),
            phase == Phase::Preparing || phase == Phase::Committing || (phase == Phase::Staging(0)
                && self.orphans@.len() > 0),
        ensures
            (out.0@, out.1@) == orphans_boundary(
                self@,
                reply@,
                event_views(first@),
                phase,
                command@,
            ),
    {
        let verdict = check_state(reply.cancelled, reply.timed_out, self.timeout_secs);
        match emit_cancellation_complete(&verdict) {
            Some(record) => {
                let mut emit = first;
                let ghost before = emit@;
                emit.push(record);
                assert(event_views(emit@) =~= event_views(before).push(record@));
                self.stop_held(emit, Ok(()))
            },
            None => (OrphanRun { phase, ..self }, Step { emit: first, next: Directive::Run(command) }),
        }
    }
}

/// The warning for a package that the engine would not mark for removal.
fn warn_not_staged(name: &str, error: &str) -> (e: StreamEvent)
    ensures
        e@ == staging_warning(name@, error@),
{
    let mut text = concat3("Failed to mark ", name, " for removal: ");
    text.append(error);
    log("warning", text)
}

/// What counts as the failure of marking a package for removal. A package
/// that the local database does not know needs no removal: nothing is
/// marked, and nothing is wrong. For a package that it knows, the failure
/// is what the engine said.
pub open spec fn staging_failure(known: bool, error: Option<Seq<char>>) -> Option<Seq<char>> {
    if known {
        error
    } else {
        None
    }
}

/// Decides what is reported as the error of the command that marks a
/// package for removal: `known` says whether the local database has the
/// package, `error` what went wrong with looking it up or marking it.
pub fn removal_error(known: bool, error: Option<String>) -> (r: Option<String>)
    ensures
        crate::events::text_of(r) == staging_failure(known, crate::events::text_of(error)),
{
    if known {
        error
    } else {
        None
    }
}

/// Makes one move of the removal of orphans: takes the reply to the command
/// handed out last (any reply will do for the first move) and says what to
/// stream and what to do next.
pub fn remove_orphans(run: OrphanRun, reply: &EngineReply) -> (out: (OrphanRun, Step))
    ensures
        (out.0@, out.1@) == orphans_step(run@, reply@),
{
    proof {
        use_type_invariant(&run);
    }
    match run.phase {
        Phase::Start => (
            OrphanRun { phase: Phase::Opening, ..run },
            crate::engine::run(EngineCommand::OpenHandle),
        ),
        Phase::Opening => match &reply.error {
            Some(e) => run.stop(one_record(complete(false, e.clone())), Err(e.clone())),
            None => (
                OrphanRun { phase: Phase::Listing, ..run },
                crate::engine::run(EngineCommand::ListInstalled),
            ),
        },
        Phase::Listing => match &reply.error {
            Some(e) => run.stop(one_record(complete(false, e.clone())), Err(e.clone())),
            None => {
                let orphans = find_orphans(&reply.installed);
                let found = OrphanRun {
                    phase: Phase::Listing,
                    timeout_secs: run.timeout_secs,
                    guard: run.guard,
                    pending: run.pending,
                    orphans,
                };
                if found.orphans.len() == 0 {
                    found.stop(
                        one_record(complete(true, String::from_str("No orphan packages to remove"))),
                        Ok(()),
                    )
                } else {
                    let verdict = check_state(reply.cancelled, reply.timed_out, found.timeout_secs);
                    match emit_cancellation_complete(&verdict) {
                        Some(record) => found.stop(one_record(record), Ok(())),
                        None => (
                            OrphanRun { phase: Phase::Initializing, ..found },
                            crate::engine::run(EngineCommand::InitTransaction { recurse: true }),
                        ),
                    }
                }
            },
        },
        Phase::Initializing => match TransactionGuard::new(&reply.error) {
            Err(error) => {
                let text = error.text();
                run.stop(one_record(complete(false, error.text())), Err(text))
            },
            Ok(guard) => {
                let held = OrphanRun {
                    phase: Phase::Preparing,
                    timeout_secs: run.timeout_secs,
                    guard,
                    pending: run.pending,
                    orphans: run.orphans,
                };
                let command = held.guard.remove_pkg(held.orphans[0].as_str());
                held.boundary(reply, no_records(), Phase::Staging(0), command)
            },
        },
        Phase::Staging(i) => {
            let count = run.orphans.len();
            assert(i < count);
            let warning = match &reply.error {
                Some(e) => one_record(warn_not_staged(run.orphans[i].as_str(), e.as_str())),
                None => no_records(),
            };
            if i + 1 < count {
                let command = run.guard.remove_pkg(run.orphans[i + 1].as_str());
                (
                    OrphanRun { phase: Phase::Staging(i + 1), ..run },
                    Step { emit: warning, next: Directive::Run(command) },
                )
            } else {
                let command = run.guard.prepare();
                run.boundary(reply, warning, Phase::Preparing, command)
            }
        },
        Phase::Preparing => match &reply.error {
            Some(e) => run.stop_held(
                one_record(complete(false, concat("Failed to prepare transaction: ", e.as_str()))),
                Err(concat("Failed to prepare transaction: ", e.as_str())),
            ),
            None => if reply.plan.remove_count == 0 {
                run.stop_held(
                    one_record(complete(true, String::from_str("No packages to remove"))),
                    Ok(()),
                )
            } else {
                let command = run.guard.commit();
                run.boundary(reply, no_records(), Phase::Committing, command)
            },
        },
        Phase::Committing => match &reply.error {
            Some(e) => {
                let outcome = classify_commit_failure(
                    e.as_str(),
                    false,
                    reply.cancelled,
                    false,
                    reply.timed_out,
                );
                let report = report_outcome(&outcome, run.timeout_secs, "Operation interrupted");
                run.stop_held(
                    one_record(report.event),
                    Err(concat("Failed to commit transaction: ", e.as_str())),
                )
            },
            None => {
                let n = decimal_string(run.orphans.len() as u64);
                let text = concat3("Removed ", n.as_str(), " orphan package(s)");
                run.stop_held(one_record(complete(true, text)), Ok(()))
            },
        },
        _ => {
            let result = copy_status(&run.pending);
            run.stop(no_records(), result)
        },
    }
}

impl Machine for OrphanRunView {
    open spec fn advance(self, r: EngineReplyView) -> (Self, StepView) {
        orphans_step(self, r)
    }

    open spec fn valid(self) -> bool {
        orphans_wf(self)
    }

    open spec fn holds_transaction(self) -> bool {
        self.guard == GuardState::Held
    }

    open spec fn awaits_transaction(self) -> bool {
        self.phase == Phase::Initializing
    }

    open spec fn may_ask(self) -> bool {
        self.phase == Phase::Start || self.phase == Phase::Opening || self.phase == Phase::Listing
    }

    open spec fn ended(self) -> bool {
        self.phase == Phase::Done
    }

    proof fn lemma_advance(self, r: EngineReplyView) {
    }
}

impl Streaming for OrphanRunView {
    open spec fn completed(self) -> bool {
        self.phase == Phase::Releasing || self.phase == Phase::Done
    }

    proof fn lemma_stream(self, r: EngineReplyView) {
    }
}

/// The packages staged for removal are the orphans found, each once and in
/// the order found: at the `i`-th staging move the run asks for the `i`-th
/// orphan.
pub proof fn lemma_orphans_staged_in_order(s: OrphanRunView, r: EngineReplyView)
    requires
        orphans_wf(s),
        s.orphans.len() <= usize::MAX,
        orphans_step(s, r).1.next matches DirectiveView::Run(EngineCommandView::StageRemoval(_)),
    ensures
        ({
            let (next, step) = orphans_step(s, r);
            &&& next.phase matches Phase::Staging(i)
            &&& i < next.orphans.len()
            &&& step.next == DirectiveView::Run(EngineCommandView::StageRemoval(next.orphans[i as int]))
            &&& next.orphans == s.orphans
            &&& (s.phase matches Phase::Staging(j) ==> i == j + 1)
            &&& (!(s.phase is Staging) ==> i == 0)
        }),
{
}

/// The orphans are fixed by the one query that precedes the transaction:
/// they are the orphans among the packages listed, and no later move
/// changes them.
pub proof fn lemma_orphans_come_from_the_listing(s: OrphanRunView, r: EngineReplyView)
    requires
        orphans_wf(s),
    ensures
        s.phase == Phase::Listing && r.error is None ==> orphans_step(s, r).0.orphans
            == orphan_names(r.installed),
        s.phase != Phase::Listing ==> orphans_step(s, r).0.orphans == s.orphans,
{
}

/// Whatever the engine replies, a removal of orphans that has ended gave
/// its transaction up exactly once if the engine had started one, and never
/// otherwise.
pub proof fn lemma_orphans_release_exactly_once(timeout_secs: u64, replies: Seq<EngineReplyView>)
    requires
        run_of(orphans_start(timeout_secs), replies).state.phase == Phase::Done,
    ensures
        ({
            let steps = run_of(orphans_start(timeout_secs), replies).steps;
            &&& acquisitions(steps, replies) <= 1
            &&& releases(steps) == acquisitions(steps, replies)
        }),
{
    let start = orphans_start(timeout_secs);
    lemma_release_balance(start, replies);
    lemma_asks_at_most_once(start, replies);
}

/// Whatever the engine replies, what a removal of orphans that has ended
/// has streamed is a finished stream: exactly one terminal record, and it
/// is the last.
pub proof fn lemma_orphans_complete_exactly_once(timeout_secs: u64, replies: Seq<EngineReplyView>)
    requires
        run_of(orphans_start(timeout_secs), replies).state.phase == Phase::Done,
    ensures
        ends_stream(stream_of(run_of(orphans_start(timeout_secs), replies).steps)),
{
    lemma_stream_is_finished(orphans_start(timeout_secs), replies);
}

} // verus!
