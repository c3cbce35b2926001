//! The driver of an unattended run.
//!
//! An unattended run is an upgrade without anybody to ask. It runs only
//! where the schedule is enabled; in check mode it only lists what it
//! finds; it installs nothing beyond the configured number of packages; and
//! where the engine raises a question that a person has to decide, it gives
//! up without applying anything and writes down why. Every run that got as
//! far as looking at the flags leaves one entry for the run log.

use vstd::prelude::*;
use vstd::string::*;

use crate::config::{mode_name, AppConfig, ScheduleMode};
use crate::engine::{
    acquisitions, copy_status, exit, exit_with, is_commit, no_records, releases, run, run_quietly,
    status_of, stream_of, update_views, EngineCommand, EngineCommandView, EngineReply,
    EngineReplyView, Phase, Step, StepView, UpdateInfo, UpdateInfoView,
};
use crate::events::text_of;
use crate::protocol::{
    lemma_asks_at_most_once, lemma_release_balance, lemma_unfold, run_of, Machine,
};
use crate::questions::{
    flagged_all, needs_person, no_flags, note_question, question_views, InterventionFlags, Question,
};
use crate::text::{concat, concat3, decimal, decimal_string, join, joined, views};
use crate::transaction::{init_failure_message, GuardState, TransactionGuard};

verus! {

/// Seconds that an unattended run may take.
pub const SCHEDULED_TIMEOUT_SECS: u64 = 1800;

/// One entry of the run log.
#[derive(Debug, Clone, PartialEq, Eq)]
pub struct ScheduledRunEntry {
    pub timestamp: String,
    pub mode: String,
    pub success: bool,
    pub packages_checked: usize,
    pub packages_upgraded: usize,
    pub error: Option<String>,
    pub details: Vec<String>,
}

/// The mathematical content of a [`ScheduledRunEntry`].
pub struct ScheduledRunEntryView {
    pub timestamp: Seq<char>,
    pub mode: Seq<char>,
    pub success: bool,
    pub packages_checked: usize,
    pub packages_upgraded: usize,
    pub error: Option<Seq<char>>,
    pub details: Seq<Seq<char>>,
}

impl View for ScheduledRunEntry {
    type V = ScheduledRunEntryView;

    open spec fn view(&self) -> ScheduledRunEntryView {
        ScheduledRunEntryView {
            timestamp: self.timestamp@,
            mode: self.mode@,
            success: self.success,
            packages_checked: self.packages_checked,
            packages_upgraded: self.packages_upgraded,
            error: text_of(self.error),
            details: views(self.details@),
        }
    }
}

/// The content of an optional entry.
pub open spec fn entry_of(e: Option<ScheduledRunEntry>) -> Option<ScheduledRunEntryView> {
    match e {
        Some(entry) => Some(entry@),
        None => None,
    }
}

/// The state of one unattended run.
pub struct ScheduledRun {
    phase: Phase,
    enabled: bool,
    mode: ScheduleMode,
    max_packages: usize,
    ignore: Vec<String>,
    timestamp: String,
    checked: usize,
    details: Vec<String>,
    flags: InterventionFlags,
    to_upgrade: usize,
    guard: TransactionGuard,
    pending: Result<(), String>,
    entry: Option<ScheduledRunEntry>,
}

/// The mathematical content of a [`ScheduledRun`].
pub struct ScheduledRunView {
    pub phase: Phase,
    pub enabled: bool,
    pub mode: ScheduleMode,
    /// The most updates to install; 0 sets no limit.
    pub max_packages: usize,
    /// The packages to leave out.
    pub ignore: Seq<Seq<char>>,
    /// When the run began, as the log shows it.
    pub timestamp: Seq<char>,
    /// How many updates were found.
    pub checked: usize,
    /// One line for each update found.
    pub details: Seq<Seq<char>>,
    /// What the questions raised so far call for.
    pub flags: InterventionFlags,
    /// How many packages the resolved transaction installs.
    pub to_upgrade: usize,
    /// Where the transaction stands.
    pub guard: GuardState,
    /// The result to end with.
    pub pending: Result<(), Seq<char>>,
    /// The entry for the run log, once it is decided.
    pub entry: Option<ScheduledRunEntryView>,
}

/// The state before anything was asked of the engine.
pub open spec fn scheduled_start(
    enabled: bool,
    mode: ScheduleMode,
    max_packages: usize,
    ignore: Seq<Seq<char>>,
    timestamp: Seq<char>,
) -> ScheduledRunView {
    ScheduledRunView {
        phase: Phase::Start,
        enabled,
        mode,
        max_packages,
        ignore,
        timestamp,
        checked: 0,
        details: Seq::empty(),
        flags: no_flags(),
        to_upgrade: 0,
        guard: GuardState::Vacant,
        pending: Ok(()),
        entry: None,
    }
}

/// Whether the number of updates found is within the configured limit.
pub open spec fn within_limit(s: ScheduledRunView) -> bool {
    s.max_packages == 0 || s.checked <= s.max_packages
}

/// The states that a run can be in. A run asks for a transaction only
/// where the schedule is enabled, the mode is to upgrade, and what was
/// found is within the limit.
pub open spec fn scheduled_wf(s: ScheduledRunView) -> bool {
    let cleared = s.enabled && s.mode == ScheduleMode::Upgrade && within_limit(s);
    match s.phase {
        Phase::Start => s.guard == GuardState::Vacant,
        Phase::Opening | Phase::Syncing | Phase::Listing => s.guard == GuardState::Vacant
            && s.enabled,
        Phase::Ignoring(i) => s.guard == GuardState::Vacant && s.enabled && i < s.ignore.len(),
        Phase::Initializing => s.guard == GuardState::Vacant && cleared,
        Phase::Staging(_) | Phase::Preparing => s.guard == GuardState::Held && cleared,
        Phase::Committing => s.guard == GuardState::Held && cleared && !needs_person(s.flags),
        Phase::Releasing => s.guard == GuardState::Released,
        Phase::Done => s.guard != GuardState::Held,
    }
}

/// The text of the failure of a run that a raised flag has stopped.
pub open spec fn stopped_text() -> Seq<char> {
    "Operation cancelled or timed out"@
}

/// An entry for the run log.
pub open spec fn entry_view(
    s: ScheduledRunView,
    success: bool,
    checked: usize,
    upgraded: usize,
    error: Option<Seq<char>>,
    details: Seq<Seq<char>>,
) -> ScheduledRunEntryView {
    ScheduledRunEntryView {
        timestamp: s.timestamp,
        mode: mode_name(s.mode),
        success,
        packages_checked: checked,
        packages_upgraded: upgraded,
        error,
        details,
    }
}

/// One line for each update: its name and the version offered.
pub open spec fn update_lines(updates: Seq<UpdateInfoView>) -> Seq<Seq<char>> {
    Seq::new(updates.len(), |i: int| updates[i].name + " -> "@ + updates[i].new_version)
}

/// The reasons for which a person is needed, in a fixed order.
pub open spec fn intervention_reasons(flags: InterventionFlags) -> Seq<Seq<char>> {
    (if flags.conflicts {
        seq!["conflicts detected"@]
    } else {
        Seq::empty()
    }) + (if flags.removals {
        seq!["package removals required"@]
    } else {
        Seq::empty()
    }) + (if flags.import_keys {
        seq!["key imports required"@]
    } else {
        Seq::empty()
    })
}

/// The line that says why a run gave up for want of a person.
pub open spec fn intervention_line(flags: InterventionFlags) -> Seq<char> {
    "Skipped: manual intervention required ("@ + joined(intervention_reasons(flags), ", "@)
        + ")"@
}

/// The line that says that more updates were found than the limit allows.
pub open spec fn limit_line(checked: usize, max_packages: usize) -> Seq<char> {
    "Skipped: "@ + decimal(checked as nat) + " updates exceed safety limit of "@ + decimal(
        max_packages as nat,
    )
}

/// Whether either flag of the reply is up.
pub open spec fn flag_up(r: EngineReplyView) -> bool {
    r.cancelled || r.timed_out
}

/// The move that ends a run which holds no transaction. The lines for the
/// updates found are handed over to the entry and kept no longer.
pub open spec fn scheduled_stop(
    s: ScheduledRunView,
    entry: Option<ScheduledRunEntryView>,
    result: Result<(), Seq<char>>,
) -> (ScheduledRunView, StepView) {
    (
        ScheduledRunView {
            phase: Phase::Done,
            entry,
            pending: result,
            details: Seq::empty(),
            ..s
        },
        exit_with(Seq::empty(), result),
    )
}

/// The move that ends a run which holds the transaction: the transaction
/// is given up, and the entry and the result wait for that.
pub open spec fn scheduled_stop_held(
    s: ScheduledRunView,
    entry: ScheduledRunEntryView,
    result: Result<(), Seq<char>>,
) -> (ScheduledRunView, StepView) {
    (
        ScheduledRunView {
            phase: Phase::Releasing,
            guard: GuardState::Released,
            entry: Some(entry),
            pending: result,
            details: Seq::empty(),
            ..s
        },
        run_quietly(EngineCommandView::Release),
    )
}

/// The move once the engine is open and the first `done` ignored packages
/// are set aside.
pub open spec fn scheduled_after_setup(s: ScheduledRunView, done: int) -> (
    ScheduledRunView,
    StepView,
) {
    if 0 <= done < s.ignore.len() {
        (
            ScheduledRunView { phase: Phase::Ignoring(done as usize), ..s },
            run_quietly(EngineCommandView::IgnorePackage(s.ignore[done])),
        )
    } else {
        (
            ScheduledRunView { phase: Phase::Syncing, ..s },
            run_quietly(EngineCommandView::SyncDatabases { force: false }),
        )
    }
}

/// The move once the updates are listed.
pub open spec fn scheduled_after_listing(s: ScheduledRunView, r: EngineReplyView) -> (
    ScheduledRunView,
    StepView,
) {
    let found = ScheduledRunView {
        checked: r.updates.len() as usize,
        details: update_lines(r.updates),
        ..s
    };
    if r.updates.len() == 0 {
        scheduled_stop(
            found,
            Some(entry_view(s, true, 0, 0, None, seq!["No updates available"@])),
            Ok(()),
        )
    } else if s.mode == ScheduleMode::Check {
        scheduled_stop(
            found,
            Some(entry_view(s, true, found.checked, 0, None, found.details)),
            Ok(()),
        )
    } else if !within_limit(found) {
        scheduled_stop(
            found,
            Some(
                entry_view(
                    s,
                    true,
                    found.checked,
                    0,
                    None,
                    seq![limit_line(found.checked, s.max_packages)],
                ),
            ),
            Ok(()),
        )
    } else {
        (
            ScheduledRunView { phase: Phase::Initializing, ..found },
            run_quietly(EngineCommandView::InitTransaction { recurse: false }),
        )
    }
}

/// The move once the transaction is resolved.
pub open spec fn scheduled_after_prepare(s: ScheduledRunView, r: EngineReplyView) -> (
    ScheduledRunView,
    StepView,
) {
    let asked = ScheduledRunView { flags: flagged_all(s.flags, r.questions), ..s };
    if r.error is Some || needs_person(asked.flags) {
        scheduled_stop_held(
            asked,
            entry_view(s, true, s.checked, 0, None, seq![intervention_line(asked.flags)]),
            Ok(()),
        )
    } else if r.plan.add_count == 0 {
        scheduled_stop_held(
            asked,
            entry_view(
                s,
                true,
                s.checked,
                0,
                None,
                seq!["No packages to upgrade after preparation"@],
            ),
            Ok(()),
        )
    } else if flag_up(r) {
        scheduled_stop_held(
            asked,
            entry_view(
                s,
                false,
                s.checked,
                0,
                Some("Operation cancelled or timed out before commit"@),
                s.details,
            ),
            Err(stopped_text()),
        )
    } else {
        (
            ScheduledRunView { phase: Phase::Committing, to_upgrade: r.plan.add_count, ..asked },
            run_quietly(EngineCommandView::Commit),
        )
    }
}

/// One move of the unattended run: the state after the reply `r` and what
/// is wanted next.
pub open spec fn scheduled_step(s: ScheduledRunView, r: EngineReplyView) -> (
    ScheduledRunView,
    StepView,
) {
    match s.phase {
        Phase::Start => if !s.enabled {
            scheduled_stop(s, None, Ok(()))
        } else if flag_up(r) {
            scheduled_stop(
                s,
                Some(
                    entry_view(
                        s,
                        false,
                        0,
                        0,
                        Some("Operation cancelled or timed out before starting"@),
                        Seq::empty(),
                    ),
                ),
                Err(stopped_text()),
            )
        } else {
            (
                ScheduledRunView { phase: Phase::Opening, ..s },
                run_quietly(EngineCommandView::OpenHandle),
            )
        },
        Phase::Opening => match r.error {
            Some(e) => scheduled_stop(s, None, Err(e)),
            None => scheduled_after_setup(s, 0),
        },
        Phase::Ignoring(i) => match r.error {
            Some(e) => scheduled_stop(s, None, Err(e)),
            None => scheduled_after_setup(s, i + 1),
        },
        Phase::Syncing => match r.error {
            Some(e) => scheduled_stop(
                s,
                Some(
                    entry_view(
                        s,
                        false,
                        0,
                        0,
                        Some("Failed to sync databases: "@ + e),
                        Seq::empty(),
                    ),
                ),
                Err(e),
            ),
            None => if flag_up(r) {
                scheduled_stop(
                    s,
                    Some(
                        entry_view(
                            s,
                            false,
                            0,
                            0,
                            Some("Operation cancelled or timed out after database sync"@),
                            Seq::empty(),
                        ),
                    ),
                    Err(stopped_text()),
                )
            } else {
                (
                    ScheduledRunView { phase: Phase::Listing, ..s },
                    run_quietly(EngineCommandView::ListUpdates),
                )
            },
        },
        Phase::Listing => match r.error {
            Some(e) => scheduled_stop(s, None, Err(e)),
            None => scheduled_after_listing(s, r),
        },
        Phase::Initializing => match r.error {
            Some(e) => scheduled_stop(
                s,
                Some(
                    entry_view(
                        s,
                        false,
                        s.checked,
                        0,
                        Some(init_failure_message(e)),
                        s.details,
                    ),
                ),
                Err(init_failure_message(e)),
            ),
            None => (
                ScheduledRunView { phase: Phase::Staging(0), guard: GuardState::Held, ..s },
                run_quietly(EngineCommandView::StageUpgrade { allow_downgrade: false }),
            ),
        },
        Phase::Staging(_) => {
            let asked = ScheduledRunView { flags: flagged_all(s.flags, r.questions), ..s };
            match r.error {
                Some(e) => scheduled_stop_held(
                    asked,
                    entry_view(
                        s,
                        false,
                        s.checked,
                        0,
                        Some("Failed to prepare upgrade: "@ + e),
                        s.details,
                    ),
                    Err(e),
                ),
                None => (
                    ScheduledRunView { phase: Phase::Preparing, ..asked },
                    run_quietly(EngineCommandView::Prepare),
                ),
            }
        },
        Phase::Preparing => scheduled_after_prepare(s, r),
        Phase::Committing => match r.error {
            Some(e) => scheduled_stop_held(
                s,
                entry_view(
                    s,
                    false,
                    s.checked,
                    0,
                    Some("Failed to commit upgrade: "@ + e),
                    s.details,
                ),
                Err(e),
            ),
            None => scheduled_stop_held(
                s,
                entry_view(s, true, s.checked, s.to_upgrade, None, s.details),
                Ok(()),
            ),
        },
        _ => (
            ScheduledRunView { phase: Phase::Done, ..s },
            exit_with(Seq::empty(), s.pending),
        ),
    }
}

impl View for ScheduledRun {
    type V = ScheduledRunView;

    closed spec fn view(&self) -> ScheduledRunView {
        ScheduledRunView {
            phase: self.phase,
            enabled: self.enabled,
            mode: self.mode,
            max_packages: self.max_packages,
            ignore: views(self.ignore@),
            timestamp: self.timestamp@,
            checked: self.checked,
            details: views(self.details@),
            flags: self.flags,
            to_upgrade: self.to_upgrade,
            guard: self.guard.state(),
            pending: status_of(self.pending),
            entry: entry_of(self.entry),
        }
    }
}

/// A list with the one line `line`.
fn one_line(line: String) -> (v: Vec<String>)
    ensures
        views(v@) == seq![line@],
{
    let mut v: Vec<String> = Vec::new();
    v.push(line);
    assert(views(v@) =~= seq![line@]);
    v
}

/// The empty list of lines.
fn no_lines() -> (v: Vec<String>)
    ensures
        views(v@) == Seq::<Seq<char>>::empty(),
{
    let v: Vec<String> = Vec::new();
    assert(views(v@) =~= Seq::<Seq<char>>::empty());
    v
}

/// One line for each update: its name and the version offered.
fn lines_for(updates: &Vec<UpdateInfo>) -> (lines: Vec<String>)
    ensures
        views(lines@) == update_lines(update_views(updates@)),
{
    let mut lines: Vec<String> = Vec::new();
    let mut i: usize = 0;
    while i < updates.len()
        invariant
            i <= updates.len(),
            lines@.len() == i,
            forall|j: int|
                0 <= j < i ==> lines@[j]@ == updates@[j].name@ + " -> "@ + updates@[j].new_version@,
        decreases updates.len() - i,
    {
        lines.push(concat3(updates[i].name.as_str(), " -> ", updates[i].new_version.as_str()));
        i += 1;
    }
    assert(views(lines@) =~= update_lines(update_views(updates@)));
    lines
}

/// The flags after every question in `questions`.
fn note_each(flags: InterventionFlags, questions: &Vec<Question>) -> (out: InterventionFlags)
    ensures
        out == flagged_all(flags, question_views(questions@)),
{
    let mut out = flags;
    let mut i: usize = 0;
    while i < questions.len()
        invariant
            i <= questions.len(),
            out == flagged_all(flags, question_views(questions@).take(i as int)),
        decreases questions.len() - i,
    {
        proof {
            let next = question_views(questions@).take(i + 1);
            assert(next.drop_last() =~= question_views(questions@).take(i as int));
            assert(next.last() == questions@[i as int]@);
        }
        out = note_question(out, &questions[i]);
        i += 1;
    }
    assert(question_views(questions@).take(questions@.len() as int) =~= question_views(
        questions@,
    ));
    out
}

/// The line that says why a run gave up for want of a person.
fn intervention_text(flags: InterventionFlags) -> (line: String)
    ensures
        line@ == intervention_line(flags),
{
    let mut reasons: Vec<String> = Vec::new();
    assert(views(reasons@) =~= Seq::<Seq<char>>::empty());
    if flags.conflicts {
        let ghost before = views(reasons@);
        reasons.push(String::from_str("conflicts detected"));
        assert(views(reasons@) =~= before + seq!["conflicts detected"@]);
    }
    if flags.removals {
        let ghost before = views(reasons@);
        reasons.push(String::from_str("package removals required"));
        assert(views(reasons@) =~= before + seq!["package removals required"@]);
    }
    if flags.import_keys {
        let ghost before = views(reasons@);
        reasons.push(String::from_str("key imports required"));
        assert(views(reasons@) =~= before + seq!["key imports required"@]);
    }
    assert(views(reasons@) =~= intervention_reasons(flags));
    let list = join(&reasons, ", ");
    concat3("Skipped: manual intervention required (", list.as_str(), ")")
}

/// The line that says that more updates were found than the limit allows.
fn limit_text(checked: usize, max_packages: usize) -> (line: String)
    ensures
        line@ == limit_line(checked, max_packages),
{
    let found = decimal_string(checked as u64);
    let limit = decimal_string(max_packages as u64);
    let mut line = concat3("Skipped: ", found.as_str(), " updates exceed safety limit of ");
    line.append(limit.as_str());
    line
}

impl ScheduledRun {
    #[verifier::type_invariant]
    spec fn well_formed(self) -> bool {
        scheduled_wf(self@)
    }

    /// An unattended run under the configuration `config`, begun at the
    /// moment that `timestamp` names.
    pub fn new(config: &AppConfig, timestamp: String) -> (run: ScheduledRun)
        ensures
            run@ == scheduled_start(
                config.schedule.enabled,
                config.schedule.mode,
                config.schedule.max_packages,
                config@.ignored_packages,
                timestamp@,
            ),
    {
        ScheduledRun {
            phase: Phase::Start,
            enabled: config.schedule.enabled,
            mode: config.schedule.mode,
            max_packages: config.schedule.max_packages,
            ignore: crate::questions::copy_strings(&config.ignored_packages),
            timestamp,
            checked: 0,
            details: no_lines(),
            flags: InterventionFlags { conflicts: false, removals: false, import_keys: false },
            to_upgrade: 0,
            guard: TransactionGuard::vacant(),
            pending: Ok(()),
            entry: None,
        }
    }

    /// Whether the run has ended.
    pub fn is_done(&self) -> (r: bool)
        ensures
            r == (self@.phase == Phase::Done),
    {
        match self.phase {
            Phase::Done => true,
            _ => false,
        }
    }

    /// The entry for the run log, if the run has decided one.
    pub fn into_entry(self) -> (e: Option<ScheduledRunEntry>)
        ensures
            entry_of(e) == self@.entry,
    {
        self.entry
    }

    /// An entry for the run log.
    fn entry(
        &self,
        success: bool,
        checked: usize,
        upgraded: usize,
        error: Option<String>,
        details: Vec<String>,
    ) -> (e: ScheduledRunEntry)
        ensures
            e@ == entry_view(self@, success, checked, upgraded, text_of(error), views(details@)),
    {
        ScheduledRunEntry {
            timestamp: self.timestamp.clone(),
            mode: String::from_str(self.mode.as_str()),
            success,
            packages_checked: checked,
            packages_upgraded: upgraded,
            error,
            details,
        }
    }

    /// Ends a run that holds no transaction.
    fn stop(self, entry: Option<ScheduledRunEntry>, result: Result<(), String>) -> (out: (
        ScheduledRun,
        Step,
    ))
        requires
            self.guard.state() != GuardState::Held,
        ensures
            (out.0@, out.1@) == scheduled_stop(self@, entry_of(entry), status_of(result)),
    {
        let step = exit(no_records(), copy_status(&result));
        (
            ScheduledRun {
                phase: Phase::Done,
                entry,
                pending: result,
                details: no_lines(),
                ..self
            },
            step,
        )
    }

    /// Ends a run that holds the transaction.
    fn stop_held(self, entry: ScheduledRunEntry, result: Result<(), String>) -> (out: (
        ScheduledRun,
        Step,
    ))
        requires
            self.guard.is_held(),
        ensures
            (out.0@, out.1@) == scheduled_stop_held(self@, entry@, status_of(result)),
    {
        let mut guard = self.guard;
        let command = match guard.release() {
            Some(command) => command,
            None => EngineCommand::Release,
        };
        (
            ScheduledRun {
                phase: Phase::Releasing,
                enabled: self.enabled,
                mode: self.mode,
                max_packages: self.max_packages,
                ignore: self.ignore,
                timestamp: self.timestamp,
                checked: self.checked,
                details: no_lines(),
                flags: self.flags,
                to_upgrade: self.to_upgrade,
                guard,
                pending: result,
                entry: Some(entry),
            },
            run(command),
        )
    }

    /// Goes on once the engine is open and `done` packages are set aside.
    fn after_setup(self, done: usize) -> (out: (ScheduledRun, Step))
        requires
            self.guard.state() == GuardState::Vacant,
            self.enabled,
        ensures
            (out.0@, out.1@) == scheduled_after_setup(self@, done as int),
    {
        if done < self.ignore.len() {
            let command = EngineCommand::IgnorePackage(self.ignore[done].clone());
            (ScheduledRun { phase: Phase::Ignoring(done), ..self }, run(command))
        } else {
            (
                ScheduledRun { phase: Phase::Syncing, ..self },
                run(EngineCommand::SyncDatabases { force: false }),
            )
        }
    }

    /// Goes on once the updates are listed.
    fn after_listing(self, reply: &EngineReply) -> (out: (ScheduledRun, Step))
        requires
            self.guard.state() == GuardState::Vacant,
            self.phase == Phase::Listing,
            self.enabled,
        ensures
            (out.0@, out.1@) == scheduled_after_listing(self@, reply@),
    {
        let checked = reply.updates.len();
        let details = lines_for(&reply.updates);
        if checked == 0 {
            let entry = self.entry(
                true,
                0,
                0,
                None,
                one_line(String::from_str("No updates available")),
            );
            let found = ScheduledRun { checked, ..self };
            found.stop(Some(entry), Ok(()))
        } else if matches!(self.mode, ScheduleMode::Check) {
            let entry = self.entry(true, checked, 0, None, details);
            let found = ScheduledRun { checked, ..self };
            found.stop(Some(entry), Ok(()))
        } else if self.max_packages > 0 && checked > self.max_packages {
            let line = limit_text(checked, self.max_packages);
            let entry = self.entry(true, checked, 0, None, one_line(line));
            let found = ScheduledRun { checked, ..self };
            found.stop(Some(entry), Ok(()))
        } else {
            (
                ScheduledRun { phase: Phase::Initializing, checked, details, ..self },
                run(EngineCommand::InitTransaction { recurse: false }),
            )
        }
    }

    /// Goes on once the transaction is resolved.
    fn after_prepare(self, reply: &EngineReply) -> (out: (ScheduledRun, Step))
        requires
            self.guard.is_held(),
            self.phase == Phase::Preparing,
            scheduled_wf(self@),
        ensures
            (out.0@, out.1@) == scheduled_after_prepare(self@, reply@),
    {
        let flags = note_each(self.flags, &reply.questions);
        let person = flags.conflicts || flags.removals || flags.import_keys;
        if reply.error.is_some() || person {
            let entry = self.entry(
                true,
                self.checked,
                0,
                None,
                one_line(intervention_text(flags)),
            );
            let asked = ScheduledRun { flags, ..self };
            asked.stop_held(entry, Ok(()))
        } else if reply.plan.add_count == 0 {
            let entry = self.entry(
                true,
                self.checked,
                0,
                None,
                one_line(String::from_str("No packages to upgrade after preparation")),
            );
            let asked = ScheduledRun { flags, ..self };
            asked.stop_held(entry, Ok(()))
        } else if reply.cancelled || reply.timed_out {
            let mut asked = ScheduledRun { flags, ..self };
            let mut details = no_lines();
            std::mem::swap(&mut details, &mut asked.details);
            let entry = asked.entry(
                false,
                asked.checked,
                0,
                Some(String::from_str("Operation cancelled or timed out before commit")),
                details,
            );
            asked.stop_held(entry, Err(String::from_str("Operation cancelled or timed out")))
        } else {
            let command = self.guard.commit();
            (
                ScheduledRun {
                    phase: Phase::Committing,
                    to_upgrade: reply.plan.add_count,
                    flags,
                    ..self
                },
                run(command),
            )
        }
    }
}

/// Makes one move of the unattended run: takes the reply to the command
/// handed out last (for the first move, a reply that carries the flags as
/// they stand) and says what to do next. The run streams nothing; its
/// entry for the run log is read from the state once the run has ended.
pub fn scheduled_run(run: ScheduledRun, reply: &EngineReply) -> (out: (ScheduledRun, Step))
    ensures
        (out.0@, out.1@) == scheduled_step(run@, reply@),
{
    proof {
        use_type_invariant(&run);
    }
    match run.phase {
        Phase::Start => if !run.enabled {
            run.stop(None, Ok(()))
        } else if reply.cancelled || reply.timed_out {
            let entry = run.entry(
                false,
                0,
                0,
                Some(String::from_str("Operation cancelled or timed out before starting")),
                no_lines(),
            );
            run.stop(Some(entry), Err(String::from_str("Operation cancelled or timed out")))
        } else {
            (
                ScheduledRun { phase: Phase::Opening, ..run },
                crate::engine::run(EngineCommand::OpenHandle),
            )
        },
        Phase::Opening => match &reply.error {
            Some(e) => run.stop(None, Err(e.clone())),
            None => run.after_setup(0),
        },
        Phase::Ignoring(i) => match &reply.error {
            Some(e) => run.stop(None, Err(e.clone())),
            None => {
                let count = run.ignore.len();
                assert(i < count);
                run.after_setup(i + 1)
            },
        },
        Phase::Syncing => match &reply.error {
            Some(e) => {
                let entry = run.entry(
                    false,
                    0,
                    0,
                    Some(concat("Failed to sync databases: ", e.as_str())),
                    no_lines(),
                );
                run.stop(Some(entry), Err(e.clone()))
            },
            None => if reply.cancelled || reply.timed_out {
                let entry = run.entry(
                    false,
                    0,
                    0,
                    Some(String::from_str("Operation cancelled or timed out after database sync")),
                    no_lines(),
                );
                run.stop(Some(entry), Err(String::from_str("Operation cancelled or timed out")))
            } else {
                (
                    ScheduledRun { phase: Phase::Listing, ..run },
                    crate::engine::run(EngineCommand::ListUpdates),
                )
            },
        },
        Phase::Listing => match &reply.error {
            Some(e) => run.stop(None, Err(e.clone())),
            None => run.after_listing(reply),
        },
        Phase::Initializing => match &reply.error {
            Some(e) => {
                let mut run = run;
                let mut details = no_lines();
                std::mem::swap(&mut details, &mut run.details);
                let text = concat("Failed to initialize transaction: ", e.as_str());
                let entry = run.entry(false, run.checked, 0, Some(text.clone()), details);
                run.stop(Some(entry), Err(text))
            },
            None => match TransactionGuard::new(&reply.error) {
                Ok(guard) => {
                    let command = guard.sync_sysupgrade(false);
                    (
                        ScheduledRun {
                            phase: Phase::Staging(0),
                            enabled: run.enabled,
                            mode: run.mode,
                            max_packages: run.max_packages,
                            ignore: run.ignore,
                            timestamp: run.timestamp,
                            checked: run.checked,
                            details: run.details,
                            flags: run.flags,
                            to_upgrade: run.to_upgrade,
                            guard,
                            pending: run.pending,
                            entry: run.entry,
                        },
                        crate::engine::run(command),
                    )
                },
                Err(_) => run.stop(None, Ok(())),
            },
        },
        Phase::Staging(_) => {
            let flags = note_each(run.flags, &reply.questions);
            match &reply.error {
                Some(e) => {
                    let mut asked = ScheduledRun { flags, ..run };
                    let mut details = no_lines();
                    std::mem::swap(&mut details, &mut asked.details);
                    let entry = asked.entry(
                        false,
                        asked.checked,
                        0,
                        Some(concat("Failed to prepare upgrade: ", e.as_str())),
                        details,
                    );
                    asked.stop_held(entry, Err(e.clone()))
                },
                None => {
                    let command = run.guard.prepare();
                    (
                        ScheduledRun { phase: Phase::Preparing, flags, ..run },
                        crate::engine::run(command),
                    )
                },
            }
        },
        Phase::Preparing => run.after_prepare(reply),
        Phase::Committing => {
            let mut run = run;
            let mut details = no_lines();
            std::mem::swap(&mut details, &mut run.details);
            match &reply.error {
                Some(e) => {
                    let entry = run.entry(
                        false,
                        run.checked,
                        0,
                        Some(concat("Failed to commit upgrade: ", e.as_str())),
                        details,
                    );
                    run.stop_held(entry, Err(e.clone()))
                },
                None => {
                    let entry = run.entry(true, run.checked, run.to_upgrade, None, details);
                    run.stop_held(entry, Ok(()))
                },
            }
        },
        _ => {
            let result = copy_status(&run.pending);
            let step = exit(no_records(), result);
            (ScheduledRun { phase: Phase::Done, ..run }, step)
        },
    }
}

impl Machine for ScheduledRunView {
    open spec fn advance(self, r: EngineReplyView) -> (Self, StepView) {
        scheduled_step(self, r)
    }

    open spec fn valid(self) -> bool {
        scheduled_wf(self)
    }

    open spec fn holds_transaction(self) -> bool {
        self.guard == GuardState::Held
    }

    open spec fn awaits_transaction(self) -> bool {
        self.phase == Phase::Initializing
    }

    open spec fn may_ask(self) -> bool {
        self.phase == Phase::Start || self.phase == Phase::Opening || self.phase is Ignoring
            || self.phase == Phase::Syncing || self.phase == Phase::Listing
    }

    open spec fn ended(self) -> bool {
        self.phase == Phase::Done
    }

    proof fn lemma_advance(self, r: EngineReplyView) {
    }
}

/// Whatever the engine replies, an unattended run that has ended gave its
/// transaction up exactly once if the engine had started one, and never
/// otherwise.
pub proof fn lemma_scheduled_releases_exactly_once(
    start: ScheduledRunView,
    replies: Seq<EngineReplyView>,
)
    requires
        start.phase == Phase::Start,
        start.guard == GuardState::Vacant,
        run_of(start, replies).state.phase == Phase::Done,
    ensures
        acquisitions(run_of(start, replies).steps, replies) <= 1,
        releases(run_of(start, replies).steps) == acquisitions(
            run_of(start, replies).steps,
            replies,
        ),
{
    lemma_release_balance(start, replies);
    lemma_asks_at_most_once(start, replies);
}

/// An unattended run applies a transaction in one situation only: the
/// schedule is enabled, the mode is to upgrade, the updates found are
/// within the limit, the transaction was resolved without error and has
/// something to install, no question raised calls for a person, and
/// neither flag was up when the resolution returned.
pub proof fn lemma_scheduled_commit_is_guarded(s: ScheduledRunView, r: EngineReplyView)
    requires
        scheduled_wf(s),
        is_commit(scheduled_step(s, r).1),
    ensures
        s.phase == Phase::Preparing,
        s.enabled,
        s.mode == ScheduleMode::Upgrade,
        within_limit(s),
        r.error is None,
        r.plan.add_count > 0,
        !needs_person(flagged_all(s.flags, r.questions)),
        !r.cancelled,
        !r.timed_out,
{
}

/// Where a question calls for a person, the run gives the transaction up
/// without applying it, reports success, and writes down why.
pub proof fn lemma_scheduled_gives_up_for_a_person(s: ScheduledRunView, r: EngineReplyView)
    requires
        scheduled_wf(s),
        s.phase == Phase::Preparing,
        needs_person(flagged_all(s.flags, r.questions)),
    ensures
        ({
            let (next, step) = scheduled_step(s, r);
            let flags = flagged_all(s.flags, r.questions);
            &&& step == run_quietly(EngineCommandView::Release)
            &&& next.pending == Ok::<(), Seq<char>>(())
            &&& next.entry == Some(
                entry_view(s, true, s.checked, 0, None, seq![intervention_line(flags)]),
            )
        }),
{
}

/// A schedule that is not enabled asks nothing of the engine and leaves no
/// entry.
pub proof fn lemma_scheduled_disabled_does_nothing(s: ScheduledRunView, r: EngineReplyView)
    requires
        s.phase == Phase::Start,
        !s.enabled,
    ensures
        scheduled_step(s, r).1 == exit_with(Seq::empty(), Ok(())),
        scheduled_step(s, r).0.entry is None,
{
}

/// An unattended run streams nothing to a caller.
pub proof fn lemma_scheduled_is_quiet(s: ScheduledRunView, replies: Seq<EngineReplyView>)
    ensures
        stream_of(run_of(s, replies).steps).len() == 0,
    decreases replies.len(),
{
    if replies.len() > 0 {
        lemma_unfold(s, replies);
        lemma_scheduled_is_quiet(scheduled_step(s, replies[0]).0, replies.drop_first());
    }
}

/// The greatest size in bytes that the run log is let grow to.
pub const MAX_LOG_SIZE_BYTES: u64 = 1048576;

/// How many entries the run log holds at most.
pub const MAX_LOG_ENTRIES: usize = 1000;

/// Whether the run log of `size` bytes is cut down before the next entry
/// is written.
pub fn needs_rotation(size: u64) -> (r: bool)
    ensures
        r == (size > MAX_LOG_SIZE_BYTES),
{
    size > MAX_LOG_SIZE_BYTES
}

/// The index of the first entry that a cut keeps: the last half of the
/// most that the log holds is kept.
pub open spec fn first_kept(count: nat) -> nat {
    if count > MAX_LOG_ENTRIES / 2 {
        (count - MAX_LOG_ENTRIES / 2) as nat
    } else {
        0
    }
}

/// Cuts the run log down: gives the entries to keep, the newest ones.
pub fn rotate_log(entries: Vec<ScheduledRunEntry>) -> (kept: Vec<ScheduledRunEntry>)
    ensures
        kept@ == entries@.skip(first_kept(entries@.len()) as int),
{
    let n = entries.len();
    let keep: usize = MAX_LOG_ENTRIES / 2;
    let first: usize = if n > keep {
        n - keep
    } else {
        0
    };
    let ghost all = entries@;
    let mut kept: Vec<ScheduledRunEntry> = Vec::new();
    let mut at: usize = 0;
    for entry in it: entries
        invariant
            it.seq() == all,
            at == it.index(),
            all.len() == n,
            first <= n,
            kept@ == all.subrange(
                first as int,
                if at <= first {
                    first as int
                } else {
                    at as int
                },
            ),
    {
        if at >= first {
            assert(all.subrange(first as int, at + 1) =~= all.subrange(first as int, at as int).push(
                entry,
            ));
            kept.push(entry);
        }
        at += 1;
    }
    assert(all.subrange(first as int, n as int) =~= all.skip(first as int));
    kept
}

/// The runs as the caller is told of them.
#[derive(Debug, Clone, PartialEq, Eq)]
pub struct ScheduledRunsResponse {
    pub runs: Vec<ScheduledRunEntry>,
    pub total: usize,
}

/// The page of the run log asked for, the newest run first: `offset` runs
/// are skipped and at most `limit` are given.
pub fn get_scheduled_runs(entries: Vec<ScheduledRunEntry>, offset: usize, limit: usize) -> (r:
    ScheduledRunsResponse)
    ensures
        r.total == entries@.len(),
        r.runs@ == entries@.reverse().subrange(
            crate::listing::page_of(entries@.len(), offset, limit).0,
            crate::listing::page_of(entries@.len(), offset, limit).1,
        ),
{
    let n = entries.len();
    let (from, to) = crate::listing::page_bounds(n, offset, limit);
    let ghost all = entries@;
    let ghost newest_first = all.reverse();
    // The page of the reversed list lies between these places of the list as given.
    let low: usize = n - to;
    let high: usize = n - from;
    let mut rest = entries;
    let mut runs: Vec<ScheduledRunEntry> = Vec::new();
    while rest.len() > low
        invariant
            low <= high <= n,
            all.len() == n,
            low <= rest@.len() <= n,
            rest@ == all.take(rest@.len() as int),
            newest_first == all.reverse(),
            runs@ == newest_first.subrange(
                from as int,
                if rest@.len() >= high {
                    from as int
                } else {
                    n - rest@.len()
                },
            ),
            from == n - high,
            to == n - low,
        decreases rest.len(),
    {
        let ghost before = rest@;
        let entry = rest.pop().unwrap();
        let at = rest.len();
        assert(rest@ =~= all.take(at as int));
        assert(entry == all[at as int]);
        assert(newest_first[n - 1 - at] == all[at as int]);
        if at < high {
            assert(newest_first.subrange(from as int, n - at) =~= newest_first.subrange(
                from as int,
                n - at - 1,
            ).push(entry));
            runs.push(entry);
        }
    }
    ScheduledRunsResponse { runs, total: n }
}

} // verus!
