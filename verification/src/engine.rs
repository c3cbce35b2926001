//! The protocol between a driver and the native package engine.
//!
//! A driver never calls the engine. It hands out one [`EngineCommand`] at a
//! time and is handed back an [`EngineReply`] that tells how the command
//! ended, together with the two flags as they stood when the command
//! returned. Whoever runs the driver performs the command.

use vstd::prelude::*;
use vstd::string::*;

use crate::events::{StreamEvent, StreamEventView};
use crate::questions::{question_views, Question, QuestionView};
use crate::text::views;

verus! {

/// What a prepared transaction would do.
#[derive(Debug, Clone, Copy, PartialEq, Eq, Structural)]
pub struct TransactionPlan {
    /// Packages to install or upgrade.
    pub add_count: usize,
    /// Packages to remove.
    pub remove_count: usize,
    /// Bytes to download for the packages to add.
    pub download_size: i64,
}

/// A step for the engine to take.
#[derive(Debug, Clone, PartialEq, Eq)]
pub enum EngineCommand {
    /// Open the engine and register the callbacks of the operation.
    OpenHandle,
    /// Leave the named package out of upgrades.
    IgnorePackage(String),
    /// Refresh the package databases.
    SyncDatabases { force: bool },
    /// Report the installed packages.
    ListInstalled,
    /// Report the installed packages for which a newer version is offered.
    ListUpdates,
    /// Start a transaction.
    InitTransaction { recurse: bool },
    /// Mark the transaction as a full system upgrade.
    StageUpgrade { allow_downgrade: bool },
    /// Mark the named package for removal.
    StageRemoval(String),
    /// Resolve the transaction.
    Prepare,
    /// Apply the transaction.
    Commit,
    /// Give the transaction up.
    Release,
}

/// The mathematical content of an [`EngineCommand`].
pub enum EngineCommandView {
    OpenHandle,
    IgnorePackage(Seq<char>),
    SyncDatabases { force: bool },
    ListInstalled,
    ListUpdates,
    InitTransaction { recurse: bool },
    StageUpgrade { allow_downgrade: bool },
    StageRemoval(Seq<char>),
    Prepare,
    Commit,
    Release,
}

impl View for EngineCommand {
    type V = EngineCommandView;

    open spec fn view(&self) -> EngineCommandView {
        match *self {
            EngineCommand::OpenHandle => EngineCommandView::OpenHandle,
            EngineCommand::IgnorePackage(name) => EngineCommandView::IgnorePackage(name@),
            EngineCommand::SyncDatabases { force } => EngineCommandView::SyncDatabases { force },
            EngineCommand::ListInstalled => EngineCommandView::ListInstalled,
            EngineCommand::ListUpdates => EngineCommandView::ListUpdates,
            EngineCommand::InitTransaction { recurse } => EngineCommandView::InitTransaction {
                recurse,
            },
            EngineCommand::StageUpgrade { allow_downgrade } => EngineCommandView::StageUpgrade {
                allow_downgrade,
            },
            EngineCommand::StageRemoval(name) => EngineCommandView::StageRemoval(name@),
            EngineCommand::Prepare => EngineCommandView::Prepare,
            EngineCommand::Commit => EngineCommandView::Commit,
            EngineCommand::Release => EngineCommandView::Release,
        }
    }
}

/// Why a package is installed.
#[derive(Debug, Clone, Copy, PartialEq, Eq, Structural)]
pub enum PackageReason {
    /// The user asked for it.
    Explicit,
    /// Another package needed it.
    Depend,
}

/// An installed package, as far as the drivers look at it.
#[derive(Debug, Clone, PartialEq, Eq)]
pub struct InstalledPackage {
    pub name: String,
    pub reason: PackageReason,
    /// Installed packages that need this one.
    pub required_by: Vec<String>,
    /// Installed packages that can make use of this one.
    pub optional_for: Vec<String>,
}

/// The mathematical content of an [`InstalledPackage`].
pub struct InstalledPackageView {
    pub name: Seq<char>,
    pub reason: PackageReason,
    pub required_by: Seq<Seq<char>>,
    pub optional_for: Seq<Seq<char>>,
}

impl View for InstalledPackage {
    type V = InstalledPackageView;

    open spec fn view(&self) -> InstalledPackageView {
        InstalledPackageView {
            name: self.name@,
            reason: self.reason,
            required_by: views(self.required_by@),
            optional_for: views(self.optional_for@),
        }
    }
}

/// The contents of a list of packages, element by element.
pub open spec fn package_views(v: Seq<InstalledPackage>) -> Seq<InstalledPackageView> {
    Seq::new(v.len(), |i: int| v[i]@)
}

/// An installed package for which a newer version is offered.
#[derive(Debug, Clone, PartialEq, Eq)]
pub struct UpdateInfo {
    pub name: String,
    pub current_version: String,
    pub new_version: String,
    pub download_size: i64,
    pub current_size: i64,
    pub new_size: i64,
    pub repository: String,
}

/// The mathematical content of an [`UpdateInfo`].
pub struct UpdateInfoView {
    pub name: Seq<char>,
    pub current_version: Seq<char>,
    pub new_version: Seq<char>,
    pub download_size: i64,
    pub current_size: i64,
    pub new_size: i64,
    pub repository: Seq<char>,
}

impl View for UpdateInfo {
    type V = UpdateInfoView;

    open spec fn view(&self) -> UpdateInfoView {
        UpdateInfoView {
            name: self.name@,
            current_version: self.current_version@,
            new_version: self.new_version@,
            download_size: self.download_size,
            current_size: self.current_size,
            new_size: self.new_size,
            repository: self.repository@,
        }
    }
}

/// The contents of a list of updates, element by element.
pub open spec fn update_views(v: Seq<UpdateInfo>) -> Seq<UpdateInfoView> {
    Seq::new(v.len(), |i: int| v[i]@)
}

/// How a command ended.
#[derive(Debug, Clone, PartialEq, Eq)]
pub struct EngineReply {
    /// The engine's error text where the command failed.
    pub error: Option<String>,
    /// Whether cancellation had been requested when the command returned.
    pub cancelled: bool,
    /// Whether the deadline had passed when the command returned.
    pub timed_out: bool,
    /// The plan, after `Prepare`.
    pub plan: TransactionPlan,
    /// The questions that the engine raised during the command, in order.
    pub questions: Vec<Question>,
    /// The installed packages, after `ListInstalled`.
    pub installed: Vec<InstalledPackage>,
    /// The offered updates, after `ListUpdates`.
    pub updates: Vec<UpdateInfo>,
}

/// The mathematical content of an [`EngineReply`].
pub struct EngineReplyView {
    pub error: Option<Seq<char>>,
    pub cancelled: bool,
    pub timed_out: bool,
    pub plan: TransactionPlan,
    pub questions: Seq<QuestionView>,
    pub installed: Seq<InstalledPackageView>,
    pub updates: Seq<UpdateInfoView>,
}

impl View for EngineReply {
    type V = EngineReplyView;

    open spec fn view(&self) -> EngineReplyView {
        EngineReplyView {
            error: crate::events::text_of(self.error),
            cancelled: self.cancelled,
            timed_out: self.timed_out,
            plan: self.plan,
            questions: question_views(self.questions@),
            installed: package_views(self.installed@),
            updates: update_views(self.updates@),
        }
    }
}

/// The plan that does nothing.
pub open spec fn empty_plan() -> TransactionPlan {
    TransactionPlan { add_count: 0, remove_count: 0, download_size: 0 }
}

impl EngineReply {
    /// The reply to a command that succeeded and reports nothing.
    pub fn ok(cancelled: bool, timed_out: bool) -> (r: EngineReply)
        ensures
            r@.error is None,
            r@.cancelled == cancelled,
            r@.timed_out == timed_out,
            r@.plan == empty_plan(),
            r@.questions.len() == 0,
            r@.installed.len() == 0,
            r@.updates.len() == 0,
    {
        EngineReply {
            error: None,
            cancelled,
            timed_out,
            plan: TransactionPlan { add_count: 0, remove_count: 0, download_size: 0 },
            questions: Vec::new(),
            installed: Vec::new(),
            updates: Vec::new(),
        }
    }

    /// The reply to a command that failed with the text `error`.
    pub fn failed(error: &str, cancelled: bool, timed_out: bool) -> (r: EngineReply)
        ensures
            r@.error == Some(error@),
            r@.cancelled == cancelled,
            r@.timed_out == timed_out,
            r@.plan == empty_plan(),
            r@.questions.len() == 0,
            r@.installed.len() == 0,
            r@.updates.len() == 0,
    {
        EngineReply {
            error: Some(String::from_str(error)),
            cancelled,
            timed_out,
            plan: TransactionPlan { add_count: 0, remove_count: 0, download_size: 0 },
            questions: Vec::new(),
            installed: Vec::new(),
            updates: Vec::new(),
        }
    }
}

/// How far an operation has come. Each driver passes through the phases
/// that its operation has; the commands it hands out in each are its own.
#[derive(Debug, Clone, Copy, PartialEq, Eq, Structural)]
pub enum Phase {
    /// Nothing has been asked of the engine.
    Start,
    /// The engine is being opened.
    Opening,
    /// The package at this index of the ignore list is being set aside.
    Ignoring(usize),
    /// The package databases are being refreshed.
    Syncing,
    /// The engine is reporting packages.
    Listing,
    /// A transaction is being started.
    Initializing,
    /// The transaction is being filled; the index counts what was staged.
    Staging(usize),
    /// The transaction is being resolved.
    Preparing,
    /// The transaction is being applied.
    Committing,
    /// The transaction is being given up.
    Releasing,
    /// The operation has ended.
    Done,
}

/// What a driver wants next: a command run, or the operation ended with the
/// given result.
#[derive(Debug, PartialEq, Eq)]
pub enum Directive {
    Run(EngineCommand),
    Exit(Result<(), String>),
}

/// The mathematical content of a [`Directive`].
pub enum DirectiveView {
    Run(EngineCommandView),
    Exit(Result<(), Seq<char>>),
}

impl View for Directive {
    type V = DirectiveView;

    open spec fn view(&self) -> DirectiveView {
        match *self {
            Directive::Run(command) => DirectiveView::Run(command@),
            Directive::Exit(Ok(())) => DirectiveView::Exit(Ok(())),
            Directive::Exit(Err(text)) => DirectiveView::Exit(Err(text@)),
        }
    }
}

/// One move of a driver: the records to stream, in order, and then what is
/// wanted next.
#[derive(Debug, PartialEq, Eq)]
pub struct Step {
    pub emit: Vec<StreamEvent>,
    pub next: Directive,
}

/// The mathematical content of a [`Step`].
pub struct StepView {
    pub emit: Seq<StreamEventView>,
    pub next: DirectiveView,
}

/// The contents of a list of records, element by element.
pub open spec fn event_views(events: Seq<StreamEvent>) -> Seq<StreamEventView> {
    Seq::new(events.len(), |i: int| events[i]@)
}

impl View for Step {
    type V = StepView;

    open spec fn view(&self) -> StepView {
        StepView { emit: event_views(self.emit@), next: self.next@ }
    }
}

/// A move that streams nothing and runs `command`.
pub open spec fn run_quietly(command: EngineCommandView) -> StepView {
    StepView { emit: Seq::empty(), next: DirectiveView::Run(command) }
}

/// A move that streams `event` and runs `command`.
pub open spec fn run_after(event: StreamEventView, command: EngineCommandView) -> StepView {
    StepView { emit: seq![event], next: DirectiveView::Run(command) }
}

/// A move that streams `emit` and ends the operation.
pub open spec fn exit_with(emit: Seq<StreamEventView>, result: Result<(), Seq<char>>) -> StepView {
    StepView { emit, next: DirectiveView::Exit(result) }
}

/// Whether a move asks for the transaction to be given up.
pub open spec fn is_release(step: StepView) -> bool {
    step.next == DirectiveView::Run(EngineCommandView::Release)
}

/// Whether a move asks for a transaction to be started.
pub open spec fn is_init(step: StepView) -> bool {
    step.next matches DirectiveView::Run(EngineCommandView::InitTransaction { .. })
}

/// Whether a move asks for the transaction to be applied.
pub open spec fn is_commit(step: StepView) -> bool {
    step.next == DirectiveView::Run(EngineCommandView::Commit)
}

/// Whether a move ends the operation.
pub open spec fn is_exit(step: StepView) -> bool {
    step.next is Exit
}

/// How many of the moves ask for the transaction to be given up.
pub open spec fn releases(steps: Seq<StepView>) -> nat
    decreases steps.len(),
{
    if steps.len() == 0 {
        0
    } else {
        (if is_release(steps[0]) {
            1nat
        } else {
            0nat
        }) + releases(steps.drop_first())
    }
}

/// How many of the moves ask for the transaction to be applied.
pub open spec fn commits(steps: Seq<StepView>) -> nat
    decreases steps.len(),
{
    if steps.len() == 0 {
        0
    } else {
        (if is_commit(steps[0]) {
            1nat
        } else {
            0nat
        }) + commits(steps.drop_first())
    }
}

/// How many transactions the engine started: the moves that ask for one,
/// each answered by the reply that follows it, counted where that reply
/// reports success. `steps[k]` is the move made on `replies[k]`, so the
/// answer to it is `replies[k + 1]`.
pub open spec fn acquisitions(steps: Seq<StepView>, replies: Seq<EngineReplyView>) -> nat
    decreases steps.len(),
{
    if steps.len() == 0 {
        0
    } else {
        (if is_init(steps[0]) && replies.len() >= 2 && replies[1].error is None {
            1nat
        } else {
            0nat
        }) + acquisitions(steps.drop_first(), replies.drop_first())
    }
}

/// Everything that the moves stream, in order.
pub open spec fn stream_of(steps: Seq<StepView>) -> Seq<StreamEventView>
    decreases steps.len(),
{
    if steps.len() == 0 {
        Seq::empty()
    } else {
        steps[0].emit + stream_of(steps.drop_first())
    }
}

/// Whether none of the records is terminal.
pub open spec fn no_terminal(events: Seq<StreamEventView>) -> bool {
    forall|i: int| 0 <= i < events.len() ==> !((#[trigger] events[i]) is Complete)
}

/// Whether the records are a finished stream: exactly one terminal record,
/// and it is the last.
pub open spec fn ends_stream(events: Seq<StreamEventView>) -> bool {
    &&& events.len() >= 1
    &&& events.last() is Complete
    &&& no_terminal(events.drop_last())
}

/// The content of a result that carries a text on failure.
pub open spec fn status_of(r: Result<(), String>) -> Result<(), Seq<char>> {
    match r {
        Ok(()) => Ok(()),
        Err(text) => Err(text@),
    }
}

/// The empty list of records.
pub fn no_records() -> (v: Vec<StreamEvent>)
    ensures
        event_views(v@) == Seq::<StreamEventView>::empty(),
{
    let v: Vec<StreamEvent> = Vec::new();
    assert(event_views(v@) =~= Seq::<StreamEventView>::empty());
    v
}

/// A list with the one record `event`.
pub fn one_record(event: StreamEvent) -> (v: Vec<StreamEvent>)
    ensures
        event_views(v@) == seq![event@],
{
    let mut v: Vec<StreamEvent> = Vec::new();
    v.push(event);
    assert(event_views(v@) =~= seq![event@]);
    v
}

/// A move that runs `command` and streams nothing.
pub fn run(command: EngineCommand) -> (step: Step)
    ensures
        step@ == run_quietly(command@),
{
    let step = Step { emit: Vec::new(), next: Directive::Run(command) };
    assert(step@.emit =~= Seq::empty());
    step
}

/// A move that streams `event` and then runs `command`.
pub fn emit_and_run(event: StreamEvent, command: EngineCommand) -> (step: Step)
    ensures
        step@ == run_after(event@, command@),
{
    Step { emit: one_record(event), next: Directive::Run(command) }
}

/// A move that streams `emit` and ends the operation with `result`.
pub fn exit(emit: Vec<StreamEvent>, result: Result<(), String>) -> (step: Step)
    ensures
        step@ == exit_with(event_views(emit@), status_of(result)),
{
    Step { emit, next: Directive::Exit(result) }
}

/// A copy of a result.
pub fn copy_status(result: &Result<(), String>) -> (out: Result<(), String>)
    ensures
        status_of(out) == status_of(*result),
{
    match result {
        Ok(()) => Ok(()),
        Err(text) => Err(text.clone()),
    }
}

} // verus!
