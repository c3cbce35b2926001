//! The dry run of an upgrade.
//!
//! A dry run stages and resolves the upgrade exactly as a real run would,
//! answers every question so that resolution shows its whole effect, keeps
//! a record of what was asked, and gives the transaction up without ever
//! applying it. What it reports depends on nothing but the ignore list and
//! the engine's replies.

use vstd::prelude::*;
use vstd::string::*;

use crate::engine::{
    acquisitions, commits, exit, exit_with, no_records, releases, run, run_quietly, stream_of,
    EngineCommand, EngineCommandView, EngineReply, EngineReplyView, Phase, Step, StepView,
};
use crate::errors::classified;
use crate::events::text_of;
use crate::protocol::{
    lemma_asks_at_most_once, lemma_release_balance, lemma_unfold, run_of, Machine,
};
use crate::questions::{
    conflict_views, conflicts_raised, empty_record, key_views, keys_raised,
    lemma_record_in_two_parts, lemma_record_is_complete_and_ordered, provider_views,
    providers_raised, record_each, recorded_all, removals_raised, replacement_views,
    replacements_raised, ConflictInfo, KeyInfo, PreflightState, PreflightStateView, ProviderChoice,
    ReplacementInfo,
};
use crate::text::{concat, views};
use crate::transaction::{init_failure_message, GuardState, TransactionGuard};

verus! {

/// What a dry run reports.
#[derive(Debug, Clone, PartialEq, Eq)]
pub struct PreflightResponse {
    pub success: bool,
    pub error: Option<String>,
    pub conflicts: Vec<ConflictInfo>,
    pub replacements: Vec<ReplacementInfo>,
    pub removals: Vec<String>,
    pub providers: Vec<ProviderChoice>,
    pub import_keys: Vec<KeyInfo>,
    pub packages_to_upgrade: usize,
    pub total_download_size: i64,
}

/// The mathematical content of a [`PreflightResponse`].
pub struct PreflightResponseView {
    pub success: bool,
    pub error: Option<Seq<char>>,
    /// The five lists of the record.
    pub record: PreflightStateView,
    pub packages_to_upgrade: usize,
    pub total_download_size: i64,
}

impl View for PreflightResponse {
    type V = PreflightResponseView;

    open spec fn view(&self) -> PreflightResponseView {
        PreflightResponseView {
            success: self.success,
            error: text_of(self.error),
            record: PreflightStateView {
                conflicts: conflict_views(self.conflicts@),
                replacements: replacement_views(self.replacements@),
                removals: views(self.removals@),
                providers: provider_views(self.providers@),
                import_keys: key_views(self.import_keys@),
            },
            packages_to_upgrade: self.packages_to_upgrade,
            total_download_size: self.total_download_size,
        }
    }
}

/// The content of an optional report.
pub open spec fn response_of(r: Option<PreflightResponse>) -> Option<PreflightResponseView> {
    match r {
        Some(response) => Some(response@),
        None => None,
    }
}

/// The report of a dry run that failed before it could resolve anything.
pub open spec fn failure_response(error: Seq<char>) -> PreflightResponseView {
    PreflightResponseView {
        success: false,
        error: Some(error),
        record: empty_record(),
        packages_to_upgrade: 0,
        total_download_size: 0,
    }
}

/// The report of a dry run whose resolution failed: what was asked up to
/// the failure is still reported.
pub open spec fn unresolved_response(record: PreflightStateView) -> PreflightResponseView {
    PreflightResponseView {
        success: false,
        error: Some("Failed to prepare transaction"@),
        record,
        packages_to_upgrade: 0,
        total_download_size: 0,
    }
}

/// The report of a dry run that resolved an upgrade.
pub open spec fn resolved_response(
    record: PreflightStateView,
    packages: usize,
    download_size: i64,
) -> PreflightResponseView {
    PreflightResponseView {
        success: true,
        error: None,
        record,
        packages_to_upgrade: packages,
        total_download_size: download_size,
    }
}

/// The state of one dry run.
pub struct PreflightRun {
    phase: Phase,
    ignore: Vec<String>,
    guard: TransactionGuard,
    record: PreflightState,
    response: Option<PreflightResponse>,
}

/// The mathematical content of a [`PreflightRun`].
pub struct PreflightRunView {
    pub phase: Phase,
    /// The packages to leave out.
    pub ignore: Seq<Seq<char>>,
    /// Where the transaction stands.
    pub guard: GuardState,
    /// What was asked so far.
    pub record: PreflightStateView,
    /// The report, once it is decided.
    pub response: Option<PreflightResponseView>,
}

/// The state before anything was asked of the engine.
pub open spec fn preflight_start(ignore: Seq<Seq<char>>) -> PreflightRunView {
    PreflightRunView {
        phase: Phase::Start,
        ignore,
        guard: GuardState::Vacant,
        record: empty_record(),
        response: None,
    }
}

/// The states that a run can be in.
pub open spec fn preflight_wf(s: PreflightRunView) -> bool {
    match s.phase {
        Phase::Start | Phase::Opening | Phase::Initializing => s.guard == GuardState::Vacant
            && s.response is None,
        Phase::Ignoring(i) => s.guard == GuardState::Vacant && i < s.ignore.len() && s.response
            is None,
        Phase::Staging(_) | Phase::Preparing => s.guard == GuardState::Held && s.response is None,
        Phase::Releasing => s.guard == GuardState::Released && s.response is Some,
        Phase::Done => s.guard != GuardState::Held && s.response is Some,
        Phase::Syncing | Phase::Listing | Phase::Committing => false,
    }
}

/// The move that ends a run which holds no transaction.
pub open spec fn preflight_stop(s: PreflightRunView, response: PreflightResponseView) -> (
    PreflightRunView,
    StepView,
) {
    (
        PreflightRunView { phase: Phase::Done, response: Some(response), ..s },
        exit_with(Seq::empty(), Ok(())),
    )
}

/// The move that ends a run which holds the transaction.
pub open spec fn preflight_stop_held(s: PreflightRunView, response: PreflightResponseView) -> (
    PreflightRunView,
    StepView,
) {
    (
        PreflightRunView {
            phase: Phase::Releasing,
            guard: GuardState::Released,
            response: Some(response),
            ..s
        },
        run_quietly(EngineCommandView::Release),
    )
}

/// The move once the engine is open and the first `done` ignored packages
/// are set aside.
pub open spec fn preflight_after_setup(s: PreflightRunView, done: int) -> (
    PreflightRunView,
    StepView,
) {
    if 0 <= done < s.ignore.len() {
        (
            PreflightRunView { phase: Phase::Ignoring(done as usize), ..s },
            run_quietly(EngineCommandView::IgnorePackage(s.ignore[done])),
        )
    } else {
        (
            PreflightRunView { phase: Phase::Initializing, ..s },
            run_quietly(EngineCommandView::InitTransaction { recurse: false }),
        )
    }
}

/// One move of the dry run: the state after the reply `r` and what is
/// wanted next. An engine error before the resolution gives a report of
/// failure, not a failed run.
pub open spec fn preflight_step(s: PreflightRunView, r: EngineReplyView) -> (
    PreflightRunView,
    StepView,
) {
    match s.phase {
        Phase::Start => (
            PreflightRunView { phase: Phase::Opening, ..s },
            run_quietly(EngineCommandView::OpenHandle),
        ),
        Phase::Opening => match r.error {
            Some(e) => preflight_stop(s, failure_response(e)),
            None => preflight_after_setup(s, 0),
        },
        Phase::Ignoring(i) => match r.error {
            Some(e) => preflight_stop(s, failure_response(e)),
            None => preflight_after_setup(s, i + 1),
        },
        Phase::Initializing => match r.error {
            Some(e) => preflight_stop(
                s,
                failure_response(classified(init_failure_message(e)).message),
            ),
            None => (
                PreflightRunView { phase: Phase::Staging(0), guard: GuardState::Held, ..s },
                run_quietly(EngineCommandView::StageUpgrade { allow_downgrade: false }),
            ),
        },
        Phase::Staging(_) => {
            let asked = PreflightRunView { record: recorded_all(s.record, r.questions), ..s };
            match r.error {
                Some(e) => preflight_stop_held(
                    asked,
                    failure_response("Failed to prepare system upgrade: "@ + e),
                ),
                None => (
                    PreflightRunView { phase: Phase::Preparing, ..asked },
                    run_quietly(EngineCommandView::Prepare),
                ),
            }
        },
        Phase::Preparing => {
            let record = recorded_all(s.record, r.questions);
            let spent = PreflightRunView { record: empty_record(), ..s };
            if r.error is Some {
                preflight_stop_held(spent, unresolved_response(record))
            } else {
                preflight_stop_held(
                    spent,
                    resolved_response(record, r.plan.add_count, r.plan.download_size),
                )
            }
        },
        _ => (PreflightRunView { phase: Phase::Done, ..s }, exit_with(Seq::empty(), Ok(()))),
    }
}

impl View for PreflightRun {
    type V = PreflightRunView;

    closed spec fn view(&self) -> PreflightRunView {
        PreflightRunView {
            phase: self.phase,
            ignore: views(self.ignore@),
            guard: self.guard.state(),
            record: self.record@,
            response: response_of(self.response),
        }
    }
}

/// The report of a failure before the resolution.
fn failed_with(error: String) -> (r: PreflightResponse)
    ensures
        r@ == failure_response(error@),
{
    let r = PreflightResponse {
        success: false,
        error: Some(error),
        conflicts: Vec::new(),
        replacements: Vec::new(),
        removals: Vec::new(),
        providers: Vec::new(),
        import_keys: Vec::new(),
        packages_to_upgrade: 0,
        total_download_size: 0,
    };
    assert(r@.record.conflicts =~= Seq::empty());
    assert(r@.record.replacements =~= Seq::empty());
    assert(r@.record.removals =~= Seq::empty());
    assert(r@.record.providers =~= Seq::empty());
    assert(r@.record.import_keys =~= Seq::empty());
    r
}

/// A report that carries the record.
fn with_record(
    success: bool,
    error: Option<String>,
    record: PreflightState,
    packages: usize,
    download_size: i64,
) -> (r: PreflightResponse)
    ensures
        r@ == (PreflightResponseView {
            success,
            error: text_of(error),
            record: record@,
            packages_to_upgrade: packages,
            total_download_size: download_size,
        }),
{
    PreflightResponse {
        success,
        error,
        conflicts: record.conflicts,
        replacements: record.replacements,
        removals: record.removals,
        providers: record.providers,
        import_keys: record.import_keys,
        packages_to_upgrade: packages,
        total_download_size: download_size,
    }
}

impl PreflightRun {
    #[verifier::type_invariant]
    spec fn well_formed(self) -> bool {
        preflight_wf(self@)
    }

    /// A dry run that leaves the packages `ignore_pkgs` out.
    pub fn new(ignore_pkgs: Vec<String>) -> (run: PreflightRun)
        ensures
            run@ == preflight_start(views(ignore_pkgs@)),
    {
        PreflightRun {
            phase: Phase::Start,
            ignore: ignore_pkgs,
            guard: TransactionGuard::vacant(),
            record: PreflightState::new(),
            response: None,
        }
    }

    /// Whether the run has ended.
    pub fn is_done(&self) -> (r: bool)
        ensures
            r == (self@.phase == Phase::Done),
    {
        match self.phase {
            Phase::Done => true,
            _ => false,
        }
    }

    /// The report: there is one as soon as the run has decided it, and
    /// always once the run has ended.
    pub fn into_response(self) -> (r: Option<PreflightResponse>)
        ensures
            response_of(r) == self@.response,
            self@.phase == Phase::Done ==> r is Some,
    {
        proof {
            use_type_invariant(&self);
        }
        self.response
    }

    /// Ends a run that holds no transaction.
    fn stop(self, response: PreflightResponse) -> (out: (PreflightRun, Step))
        requires
            self.guard.state() != GuardState::Held,
        ensures
            (out.0@, out.1@) == preflight_stop(self@, response@),
    {
        let step = exit(no_records(), Ok(()));
        (
            PreflightRun {
                phase: Phase::Done,
                ignore: self.ignore,
                guard: self.guard,
                record: self.record,
                response: Some(response),
            },
            step,
        )
    }

    /// Ends a run that holds the transaction.
    fn stop_held(self, response: PreflightResponse) -> (out: (PreflightRun, Step))
        requires
            self.guard.is_held(),
        ensures
            (out.0@, out.1@) == preflight_stop_held(self@, response@),
    {
        let mut guard = self.guard;
        let command = match guard.release() {
            Some(command) => command,
            None => EngineCommand::Release,
        };
        (
            PreflightRun {
                phase: Phase::Releasing,
                ignore: self.ignore,
                guard,
                record: self.record,
                response: Some(response),
            },
            run(command),
        )
    }

    /// Goes on once the engine is open and `done` packages are set aside.
    fn after_setup(self, done: usize) -> (out: (PreflightRun, Step))
        requires
            self.guard.state() == GuardState::Vacant,
            self.response is None,
        ensures
            (out.0@, out.1@) == preflight_after_setup(self@, done as int),
    {
        if done < self.ignore.len() {
            let command = EngineCommand::IgnorePackage(self.ignore[done].clone());
            (PreflightRun { phase: Phase::Ignoring(done), ..self }, run(command))
        } else {
            (
                PreflightRun { phase: Phase::Initializing, ..self },
                run(EngineCommand::InitTransaction { recurse: false }),
            )
        }
    }
}

/// Makes one move of the dry run: takes the reply to the command handed
/// out last (any reply will do for the first move) and says what to do
/// next. The run streams nothing; its report is read from the state once
/// the run has ended.
pub fn preflight_upgrade(run: PreflightRun, reply: &EngineReply) -> (out: (PreflightRun, Step))
    ensures
        (out.0@, out.1@) == preflight_step(run@, reply@),
{
    proof {
        use_type_invariant(&run);
    }
    match run.phase {
        Phase::Start => (
            PreflightRun { phase: Phase::Opening, ..run },
            crate::engine::run(EngineCommand::OpenHandle),
        ),
        Phase::Opening => match &reply.error {
            Some(e) => run.stop(failed_with(e.clone())),
            None => run.after_setup(0),
        },
        Phase::Ignoring(i) => match &reply.error {
            Some(e) => run.stop(failed_with(e.clone())),
            None => {
                let count = run.ignore.len();
                assert(i < count);
                run.after_setup(i + 1)
            },
        },
        Phase::Initializing => match TransactionGuard::new(&reply.error) {
            Err(error) => run.stop(failed_with(error.text())),
            Ok(guard) => {
                let command = guard.sync_sysupgrade(false);
                (
                    PreflightRun {
                        phase: Phase::Staging(0),
                        ignore: run.ignore,
                        guard,
                        record: run.record,
                        response: run.response,
                    },
                    crate::engine::run(command),
                )
            },
        },
        Phase::Staging(_) => {
            let mut record = run.record;
            record_each(&mut record, &reply.questions);
            let asked = PreflightRun {
                phase: Phase::Staging(0),
                ignore: run.ignore,
                guard: run.guard,
                record,
                response: run.response,
            };
            match &reply.error {
                Some(e) => asked.stop_held(
                    failed_with(concat("Failed to prepare system upgrade: ", e.as_str())),
                ),
                None => {
                    let command = asked.guard.prepare();
                    (PreflightRun { phase: Phase::Preparing, ..asked }, crate::engine::run(command))
                },
            }
        },
        Phase::Preparing => {
            let mut report = run.record;
            record_each(&mut report, &reply.questions);
            let asked = PreflightRun {
                phase: Phase::Preparing,
                ignore: run.ignore,
                guard: run.guard,
                record: PreflightState::new(),
                response: run.response,
            };
            if reply.error.is_some() {
                asked.stop_held(
                    with_record(
                        false,
                        Some(String::from_str("Failed to prepare transaction")),
                        report,
                        0,
                        0,
                    ),
                )
            } else {
                asked.stop_held(
                    with_record(
                        true,
                        None,
                        report,
                        reply.plan.add_count,
                        reply.plan.download_size,
                    ),
                )
            }
        },
        _ => {
            let step = exit(no_records(), Ok(()));
            (PreflightRun { phase: Phase::Done, ..run }, step)
        },
    }
}

impl Machine for PreflightRunView {
    open spec fn advance(self, r: EngineReplyView) -> (Self, StepView) {
        preflight_step(self, r)
    }

    open spec fn valid(self) -> bool {
        preflight_wf(self)
    }

    open spec fn holds_transaction(self) -> bool {
        self.guard == GuardState::Held
    }

    open spec fn awaits_transaction(self) -> bool {
        self.phase == Phase::Initializing
    }

    open spec fn may_ask(self) -> bool {
        self.phase == Phase::Start || self.phase == Phase::Opening || self.phase is Ignoring
    }

    open spec fn ended(self) -> bool {
        self.phase == Phase::Done
    }

    proof fn lemma_advance(self, r: EngineReplyView) {
    }
}

/// Whatever the engine replies, a dry run that has ended gave its
/// transaction up exactly once if the engine had started one, and never
/// otherwise.
pub proof fn lemma_preflight_releases_exactly_once(ignore: Seq<Seq<char>>, replies: Seq<
    EngineReplyView,
>)
    requires
        run_of(preflight_start(ignore), replies).state.phase == Phase::Done,
    ensures
        ({
            let steps = run_of(preflight_start(ignore), replies).steps;
            &&& acquisitions(steps, replies) <= 1
            &&& releases(steps) == acquisitions(steps, replies)
        }),
{
    let start = preflight_start(ignore);
    lemma_release_balance(start, replies);
    lemma_asks_at_most_once(start, replies);
}

/// A dry run never applies a transaction and never streams a record,
/// whatever state it is in and whatever the engine replies.
pub proof fn lemma_preflight_never_commits(s: PreflightRunView, replies: Seq<EngineReplyView>)
    ensures
        commits(run_of(s, replies).steps) == 0,
        stream_of(run_of(s, replies).steps).len() == 0,
    decreases replies.len(),
{
    if replies.len() > 0 {
        lemma_unfold(s, replies);
        lemma_preflight_never_commits(preflight_step(s, replies[0]).0, replies.drop_first());
    }
}

/// Two dry runs over the same ignore list that get the same replies end in
/// the same state with the same report: nothing else enters a dry run.
pub proof fn lemma_preflight_is_repeatable(
    ignore: Seq<Seq<char>>,
    first: Seq<EngineReplyView>,
    second: Seq<EngineReplyView>,
)
    requires
        first == second,
    ensures
        run_of(preflight_start(ignore), first) == run_of(preflight_start(ignore), second),
        run_of(preflight_start(ignore), first).state.response == run_of(
            preflight_start(ignore),
            second,
        ).state.response,
{
}

/// The report of a dry run that got as far as resolving holds every
/// question that was raised while the upgrade was staged and while it was
/// resolved, each kind in the order raised, none dropped: whether the
/// resolution succeeded or not, and whatever the plan holds, also where it
/// adds nothing. The run succeeded exactly where the resolution did, and
/// then it reports the size of the plan.
pub proof fn lemma_preflight_reports_every_question(
    s: PreflightRunView,
    staged: EngineReplyView,
    prepared: EngineReplyView,
)
    requires
        preflight_wf(s),
        s.phase is Staging,
        s.record == empty_record(),
        staged.error is None,
    ensures
        ({
            let asked = staged.questions + prepared.questions;
            let end = preflight_step(preflight_step(s, staged).0, prepared).0;
            &&& end.response is Some
            &&& end.response->0.success == (prepared.error is None)
            &&& prepared.error is None ==> end.response->0.packages_to_upgrade
                == prepared.plan.add_count && end.response->0.total_download_size
                == prepared.plan.download_size
            &&& end.response->0.record.conflicts == conflicts_raised(asked)
            &&& end.response->0.record.replacements == replacements_raised(asked)
            &&& end.response->0.record.removals == removals_raised(asked)
            &&& end.response->0.record.providers == providers_raised(asked)
            &&& end.response->0.record.import_keys == keys_raised(asked)
        }),
{
    lemma_record_in_two_parts(empty_record(), staged.questions, prepared.questions);
    lemma_record_is_complete_and_ordered(staged.questions + prepared.questions);
}

} // verus!
