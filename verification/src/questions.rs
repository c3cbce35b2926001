//! Answers to the questions that the engine raises while it resolves a
//! transaction, and the record that a dry run keeps of them.

use vstd::prelude::*;
use vstd::string::*;

use crate::events::{event_of, log, log_view, StreamEvent, StreamEventView};
use crate::text::{concat, concat3, join, joined, views};

verus! {

/// A question raised by the engine, with what it is about.
#[derive(Debug, Clone, PartialEq, Eq)]
pub enum Question {
    /// Two packages cannot both be installed.
    Conflict { package1: String, package2: String },
    /// A downloaded package file is damaged.
    Corrupted { filepath: String },
    /// Packages that cannot be upgraded would have to go.
    RemovePkgs { packages: Vec<String> },
    /// One package takes the place of another.
    Replace { old_package: String, new_package: String },
    /// A package on the ignore list is asked for.
    InstallIgnorepkg { package: String },
    /// Several packages satisfy one dependency.
    SelectProvider { dependency: String, providers: Vec<String> },
    /// A signing key is not yet trusted.
    ImportKey { fingerprint: String, uid: String },
}

/// The mathematical content of a [`Question`].
pub enum QuestionView {
    Conflict { package1: Seq<char>, package2: Seq<char> },
    Corrupted { filepath: Seq<char> },
    RemovePkgs { packages: Seq<Seq<char>> },
    Replace { old_package: Seq<char>, new_package: Seq<char> },
    InstallIgnorepkg { package: Seq<char> },
    SelectProvider { dependency: Seq<char>, providers: Seq<Seq<char>> },
    ImportKey { fingerprint: Seq<char>, uid: Seq<char> },
}

impl View for Question {
    type V = QuestionView;

    open spec fn view(&self) -> QuestionView {
        match *self {
            Question::Conflict { package1, package2 } => QuestionView::Conflict {
                package1: package1@,
                package2: package2@,
            },
            Question::Corrupted { filepath } => QuestionView::Corrupted { filepath: filepath@ },
            Question::RemovePkgs { packages } => QuestionView::RemovePkgs {
                packages: views(packages@),
            },
            Question::Replace { old_package, new_package } => QuestionView::Replace {
                old_package: old_package@,
                new_package: new_package@,
            },
            Question::InstallIgnorepkg { package } => QuestionView::InstallIgnorepkg {
                package: package@,
            },
            Question::SelectProvider { dependency, providers } => QuestionView::SelectProvider {
                dependency: dependency@,
                providers: views(providers@),
            },
            Question::ImportKey { fingerprint, uid } => QuestionView::ImportKey {
                fingerprint: fingerprint@,
                uid: uid@,
            },
        }
    }
}

/// The contents of a list of questions, element by element.
pub open spec fn question_views(qs: Seq<Question>) -> Seq<QuestionView> {
    Seq::new(qs.len(), |i: int| qs[i]@)
}

/// What the engine is told.
#[derive(Debug, Clone, Copy, PartialEq, Eq, Structural)]
pub enum Answer {
    Yes,
    No,
    /// Take the candidate at this index.
    Choose(usize),
}

/// The answer policy: everything is allowed so that resolution can go on
/// and show its whole effect, except a damaged file and a package that the
/// user asked to leave alone; of several providers the first is taken.
pub open spec fn policy(q: QuestionView) -> Answer {
    match q {
        QuestionView::Corrupted { .. } => Answer::No,
        QuestionView::InstallIgnorepkg { .. } => Answer::No,
        QuestionView::SelectProvider { .. } => Answer::Choose(0),
        _ => Answer::Yes,
    }
}

/// The answer to `q`.
pub fn answer_question(q: &Question) -> (a: Answer)
    ensures
        a == policy(q@),
{
    match q {
        Question::Corrupted { .. } => Answer::No,
        Question::InstallIgnorepkg { .. } => Answer::No,
        Question::SelectProvider { .. } => Answer::Choose(0),
        _ => Answer::Yes,
    }
}

/// Two packages that cannot both be installed.
#[derive(Debug, Clone, PartialEq, Eq)]
pub struct ConflictInfo {
    pub package1: String,
    pub package2: String,
}

/// A package and the one that takes its place.
#[derive(Debug, Clone, PartialEq, Eq)]
pub struct ReplacementInfo {
    pub old_package: String,
    pub new_package: String,
}

/// A dependency and the packages that satisfy it.
#[derive(Debug, Clone, PartialEq, Eq)]
pub struct ProviderChoice {
    pub dependency: String,
    pub providers: Vec<String>,
}

/// A signing key to import.
#[derive(Debug, Clone, PartialEq, Eq)]
pub struct KeyInfo {
    pub fingerprint: String,
    pub uid: String,
}

impl View for ConflictInfo {
    type V = (Seq<char>, Seq<char>);

    open spec fn view(&self) -> (Seq<char>, Seq<char>) {
        (self.package1@, self.package2@)
    }
}

impl View for ReplacementInfo {
    type V = (Seq<char>, Seq<char>);

    open spec fn view(&self) -> (Seq<char>, Seq<char>) {
        (self.old_package@, self.new_package@)
    }
}

impl View for ProviderChoice {
    type V = (Seq<char>, Seq<Seq<char>>);

    open spec fn view(&self) -> (Seq<char>, Seq<Seq<char>>) {
        (self.dependency@, views(self.providers@))
    }
}

impl View for KeyInfo {
    type V = (Seq<char>, Seq<char>);

    open spec fn view(&self) -> (Seq<char>, Seq<char>) {
        (self.fingerprint@, self.uid@)
    }
}

/// The contents of a list of pairs of packages.
pub open spec fn conflict_views(v: Seq<ConflictInfo>) -> Seq<(Seq<char>, Seq<char>)> {
    Seq::new(v.len(), |i: int| v[i]@)
}

/// The contents of a list of replacements.
pub open spec fn replacement_views(v: Seq<ReplacementInfo>) -> Seq<(Seq<char>, Seq<char>)> {
    Seq::new(v.len(), |i: int| v[i]@)
}

/// The contents of a list of provider choices.
pub open spec fn provider_views(v: Seq<ProviderChoice>) -> Seq<(Seq<char>, Seq<Seq<char>>)> {
    Seq::new(v.len(), |i: int| v[i]@)
}

/// The contents of a list of keys.
pub open spec fn key_views(v: Seq<KeyInfo>) -> Seq<(Seq<char>, Seq<char>)> {
    Seq::new(v.len(), |i: int| v[i]@)
}

/// What a dry run has learnt from the questions raised so far.
#[derive(Debug, Clone, PartialEq, Eq)]
pub struct PreflightState {
    pub conflicts: Vec<ConflictInfo>,
    pub replacements: Vec<ReplacementInfo>,
    pub removals: Vec<String>,
    pub providers: Vec<ProviderChoice>,
    pub import_keys: Vec<KeyInfo>,
}

/// The mathematical content of a [`PreflightState`]: five lists, each in the
/// order in which its entries were raised.
pub struct PreflightStateView {
    pub conflicts: Seq<(Seq<char>, Seq<char>)>,
    pub replacements: Seq<(Seq<char>, Seq<char>)>,
    pub removals: Seq<Seq<char>>,
    pub providers: Seq<(Seq<char>, Seq<Seq<char>>)>,
    pub import_keys: Seq<(Seq<char>, Seq<char>)>,
}

impl View for PreflightState {
    type V = PreflightStateView;

    open spec fn view(&self) -> PreflightStateView {
        PreflightStateView {
            conflicts: conflict_views(self.conflicts@),
            replacements: replacement_views(self.replacements@),
            removals: views(self.removals@),
            providers: provider_views(self.providers@),
            import_keys: key_views(self.import_keys@),
        }
    }
}

/// The record before any question.
pub open spec fn empty_record() -> PreflightStateView {
    PreflightStateView {
        conflicts: Seq::empty(),
        replacements: Seq::empty(),
        removals: Seq::empty(),
        providers: Seq::empty(),
        import_keys: Seq::empty(),
    }
}

/// The record `state` after the question `q`.
pub open spec fn recorded(state: PreflightStateView, q: QuestionView) -> PreflightStateView {
    match q {
        QuestionView::Conflict { package1, package2 } => PreflightStateView {
            conflicts: state.conflicts.push((package1, package2)),
            ..state
        },
        QuestionView::RemovePkgs { packages } => PreflightStateView {
            removals: state.removals + packages,
            ..state
        },
        QuestionView::Replace { old_package, new_package } => PreflightStateView {
            replacements: state.replacements.push((old_package, new_package)),
            ..state
        },
        QuestionView::SelectProvider { dependency, providers } => PreflightStateView {
            providers: state.providers.push((dependency, providers)),
            ..state
        },
        QuestionView::ImportKey { fingerprint, uid } => PreflightStateView {
            import_keys: state.import_keys.push((fingerprint, uid)),
            ..state
        },
        QuestionView::Corrupted { .. } => state,
        QuestionView::InstallIgnorepkg { .. } => state,
    }
}

/// The record `state` after the questions `qs`, in the order raised.
pub open spec fn recorded_all(state: PreflightStateView, qs: Seq<QuestionView>) -> PreflightStateView
    decreases qs.len(),
{
    if qs.len() == 0 {
        state
    } else {
        recorded(recorded_all(state, qs.drop_last()), qs.last())
    }
}

/// The conflicts among `qs`, in order.
pub open spec fn conflicts_raised(qs: Seq<QuestionView>) -> Seq<(Seq<char>, Seq<char>)> {
    qs.filter(|q: QuestionView| q is Conflict).map_values(
        |q: QuestionView| (q->package1, q->package2),
    )
}

/// The replacements among `qs`, in order.
pub open spec fn replacements_raised(qs: Seq<QuestionView>) -> Seq<(Seq<char>, Seq<char>)> {
    qs.filter(|q: QuestionView| q is Replace).map_values(
        |q: QuestionView| (q->old_package, q->new_package),
    )
}

/// The provider choices among `qs`, in order.
pub open spec fn providers_raised(qs: Seq<QuestionView>) -> Seq<(Seq<char>, Seq<Seq<char>>)> {
    qs.filter(|q: QuestionView| q is SelectProvider).map_values(
        |q: QuestionView| (q->dependency, q->providers),
    )
}

/// The key imports among `qs`, in order.
pub open spec fn keys_raised(qs: Seq<QuestionView>) -> Seq<(Seq<char>, Seq<char>)> {
    qs.filter(|q: QuestionView| q is ImportKey).map_values(
        |q: QuestionView| (q->fingerprint, q->uid),
    )
}

/// The packages named by the removal questions among `qs`, in order.
pub open spec fn removals_raised(qs: Seq<QuestionView>) -> Seq<Seq<char>>
    decreases qs.len(),
{
    if qs.len() == 0 {
        Seq::empty()
    } else {
        removals_raised(qs.drop_last()) + (match qs.last() {
            QuestionView::RemovePkgs { packages } => packages,
            _ => Seq::empty(),
        })
    }
}

/// Whether a question leaves an entry in the record. A damaged file and an
/// ignored package are refused and leave none.
pub open spec fn leaves_entry(q: QuestionView) -> bool {
    !(q is Corrupted) && !(q is InstallIgnorepkg)
}

impl PreflightState {
    /// The empty record.
    pub fn new() -> (s: PreflightState)
        ensures
            s@ == empty_record(),
    {
        let s = PreflightState {
            conflicts: Vec::new(),
            replacements: Vec::new(),
            removals: Vec::new(),
            providers: Vec::new(),
            import_keys: Vec::new(),
        };
        assert(s@.conflicts =~= Seq::empty());
        assert(s@.replacements =~= Seq::empty());
        assert(s@.removals =~= Seq::empty());
        assert(s@.providers =~= Seq::empty());
        assert(s@.import_keys =~= Seq::empty());
        s
    }
}

/// A copy of a list of strings.
pub fn copy_strings(v: &Vec<String>) -> (out: Vec<String>)
    ensures
        views(out@) == views(v@),
{
    let mut out: Vec<String> = Vec::new();
    let mut i: usize = 0;
    while i < v.len()
        invariant
            i <= v.len(),
            out@.len() == i,
            forall|j: int| 0 <= j < i ==> out@[j]@ == v@[j]@,
        decreases v.len() - i,
    {
        out.push(v[i].clone());
        i += 1;
    }
    assert(views(out@) =~= views(v@));
    out
}

/// Appends what `q` is about to the record. A damaged file and an ignored
/// package leave no entry.
pub fn record_question(state: &mut PreflightState, q: &Question)
    ensures
        final(state)@ == recorded(old(state)@, q@),
{
    match q {
        Question::Conflict { package1, package2 } => {
            state.conflicts.push(
                ConflictInfo { package1: package1.clone(), package2: package2.clone() },
            );
            assert(state@.conflicts =~= old(state)@.conflicts.push((package1@, package2@)));
        },
        Question::RemovePkgs { packages } => {
            let mut i: usize = 0;
            while i < packages.len()
                invariant
                    i <= packages.len(),
                    views(state.removals@) == views(old(state).removals@) + views(packages@).take(
                        i as int,
                    ),
                    state.conflicts == old(state).conflicts,
                    state.replacements == old(state).replacements,
                    state.providers == old(state).providers,
                    state.import_keys == old(state).import_keys,
                decreases packages.len() - i,
            {
                let ghost before = state.removals@;
                state.removals.push(packages[i].clone());
                assert(views(state.removals@) =~= views(before).push(packages@[i as int]@));
                assert(views(packages@).take(i + 1) =~= views(packages@).take(i as int).push(
                    packages@[i as int]@,
                ));
                i += 1;
            }
            assert(views(packages@).take(packages@.len() as int) =~= views(packages@));
        },
        Question::Replace { old_package, new_package } => {
            state.replacements.push(
                ReplacementInfo {
                    old_package: old_package.clone(),
                    new_package: new_package.clone(),
                },
            );
            assert(state@.replacements =~= old(state)@.replacements.push(
                (old_package@, new_package@),
            ));
        },
        Question::SelectProvider { dependency, providers } => {
            let list = copy_strings(providers);
            state.providers.push(ProviderChoice { dependency: dependency.clone(), providers: list });
            assert(state@.providers =~= old(state)@.providers.push(
                (dependency@, views(providers@)),
            ));
        },
        Question::ImportKey { fingerprint, uid } => {
            state.import_keys.push(KeyInfo { fingerprint: fingerprint.clone(), uid: uid.clone() });
            assert(state@.import_keys =~= old(state)@.import_keys.push((fingerprint@, uid@)));
        },
        Question::Corrupted { .. } => {},
        Question::InstallIgnorepkg { .. } => {},
    }
}

/// Appends what each of `questions` is about to the record, in order.
pub fn record_each(state: &mut PreflightState, questions: &Vec<Question>)
    ensures
        final(state)@ == recorded_all(old(state)@, question_views(questions@)),
{
    let mut i: usize = 0;
    while i < questions.len()
        invariant
            i <= questions.len(),
            state@ == recorded_all(old(state)@, question_views(questions@).take(i as int)),
        decreases questions.len() - i,
    {
        proof {
            let next = question_views(questions@).take(i + 1);
            assert(next.drop_last() =~= question_views(questions@).take(i as int));
            assert(next.last() == questions@[i as int]@);
        }
        record_question(state, &questions[i]);
        i += 1;
    }
    assert(question_views(questions@).take(questions@.len() as int) =~= question_views(
        questions@,
    ));
}

/// The record of a whole run of questions, starting from the empty record.
pub fn record_all(questions: &Vec<Question>) -> (state: PreflightState)
    ensures
        state@ == recorded_all(empty_record(), question_views(questions@)),
{
    let mut state = PreflightState::new();
    record_each(&mut state, questions);
    state
}

/// The line that a committing run logs for its decision on `q`; an ignored
/// package is refused without a line.
pub open spec fn decision_log(q: QuestionView) -> Option<StreamEventView> {
    match q {
        QuestionView::Conflict { package1, package2 } => Some(
            log_view(
                "info"@,
                "Resolving conflict between "@ + package1 + " and "@ + package2,
            ),
        ),
        QuestionView::Corrupted { filepath } => Some(
            log_view("error"@, "Package "@ + filepath + " is corrupted - aborting"@),
        ),
        QuestionView::RemovePkgs { packages } => Some(
            log_view("info"@, "Removing packages as confirmed: "@ + joined(packages, ", "@)),
        ),
        QuestionView::Replace { old_package, new_package } => Some(
            log_view("info"@, "Replacing "@ + old_package + " with "@ + new_package),
        ),
        QuestionView::InstallIgnorepkg { .. } => None,
        QuestionView::SelectProvider { dependency, providers } => Some(
            log_view(
                "info"@,
                "Selecting "@ + (if providers.len() > 0 {
                    providers[0]
                } else {
                    "unknown"@
                }) + " as provider for "@ + dependency,
            ),
        ),
        QuestionView::ImportKey { fingerprint, uid } => Some(
            log_view("info"@, "Importing PGP key "@ + fingerprint + " ("@ + uid + ")"@),
        ),
    }
}

/// The line to log for the decision on `q` in a committing run.
pub fn describe_decision(q: &Question) -> (e: Option<StreamEvent>)
    ensures
        event_of(e) == decision_log(q@),
{
    match q {
        Question::Conflict { package1, package2 } => {
            let mut m = concat3("Resolving conflict between ", package1.as_str(), " and ");
            m.append(package2.as_str());
            Some(log("info", m))
        },
        Question::Corrupted { filepath } => Some(
            log("error", concat3("Package ", filepath.as_str(), " is corrupted - aborting")),
        ),
        Question::RemovePkgs { packages } => {
            let list = join(packages, ", ");
            Some(log("info", concat("Removing packages as confirmed: ", list.as_str())))
        },
        Question::Replace { old_package, new_package } => {
            let mut m = concat3("Replacing ", old_package.as_str(), " with ");
            m.append(new_package.as_str());
            Some(log("info", m))
        },
        Question::InstallIgnorepkg { .. } => None,
        Question::SelectProvider { dependency, providers } => {
            let mut m = String::from_str("Selecting ");
            if providers.len() > 0 {
                m.append(providers[0].as_str());
            } else {
                m.append("unknown");
            }
            m.append(" as provider for ");
            m.append(dependency.as_str());
            Some(log("info", m))
        },
        Question::ImportKey { fingerprint, uid } => {
            let mut m = concat3("Importing PGP key ", fingerprint.as_str(), " (");
            m.append(uid.as_str());
            m.append(")");
            Some(log("info", m))
        },
    }
}

/// How the responder treats what it is asked.
#[derive(Debug, Clone, Copy, PartialEq, Eq, Structural)]
pub enum ResponderMode {
    /// A dry run: every question is recorded.
    Record,
    /// A real run: every decision is logged.
    Commit,
}

/// The answer to one question and the line to log for it, if any.
#[derive(Debug, Clone, PartialEq, Eq)]
pub struct Response {
    pub answer: Answer,
    pub log: Option<StreamEvent>,
}

/// Answers the engine's questions and keeps the record of a dry run.
#[derive(Debug, Clone, PartialEq, Eq)]
pub struct QuestionResponder {
    pub mode: ResponderMode,
    pub state: PreflightState,
}

impl QuestionResponder {
    /// A responder with an empty record.
    pub fn new(mode: ResponderMode) -> (r: QuestionResponder)
        ensures
            r.mode == mode,
            r.state@ == empty_record(),
    {
        QuestionResponder { mode, state: PreflightState::new() }
    }

    /// Answers `q`. The answer is the same in both modes. A dry run appends
    /// to its record and logs nothing; a real run logs its decision and
    /// records nothing.
    pub fn respond(&mut self, q: &Question) -> (r: Response)
        ensures
            final(self).mode == old(self).mode,
            r.answer == policy(q@),
            old(self).mode == ResponderMode::Record ==> {
                &&& final(self).state@ == recorded(old(self).state@, q@)
                &&& r.log is None
            },
            old(self).mode == ResponderMode::Commit ==> {
                &&& final(self).state@ == old(self).state@
                &&& event_of(r.log) == decision_log(q@)
            },
    {
        let answer = answer_question(q);
        match self.mode {
            ResponderMode::Record => {
                record_question(&mut self.state, q);
                Response { answer, log: None }
            },
            ResponderMode::Commit => Response { answer, log: describe_decision(q) },
        }
    }
}

/// What an unattended run has to know of the questions raised: whether any
/// of them needs a person to decide.
#[derive(Debug, Clone, Copy, PartialEq, Eq, Structural)]
pub struct InterventionFlags {
    pub conflicts: bool,
    pub removals: bool,
    pub import_keys: bool,
}

/// The flags `flags` after the question `q`: a conflict, a removal, a
/// replacement and a key import each call for a person.
pub open spec fn flagged(flags: InterventionFlags, q: QuestionView) -> InterventionFlags {
    match q {
        QuestionView::Conflict { .. } => InterventionFlags { conflicts: true, ..flags },
        QuestionView::RemovePkgs { .. } => InterventionFlags { removals: true, ..flags },
        QuestionView::Replace { .. } => InterventionFlags { removals: true, ..flags },
        QuestionView::ImportKey { .. } => InterventionFlags { import_keys: true, ..flags },
        _ => flags,
    }
}

/// The flags after the questions `qs`.
pub open spec fn flagged_all(flags: InterventionFlags, qs: Seq<QuestionView>) -> InterventionFlags
    decreases qs.len(),
{
    if qs.len() == 0 {
        flags
    } else {
        flagged(flagged_all(flags, qs.drop_last()), qs.last())
    }
}

/// No flag raised.
pub open spec fn no_flags() -> InterventionFlags {
    InterventionFlags { conflicts: false, removals: false, import_keys: false }
}

/// Whether any flag is raised.
pub open spec fn needs_person(flags: InterventionFlags) -> bool {
    flags.conflicts || flags.removals || flags.import_keys
}

/// Raises the flag that `q` calls for, if any.
pub fn note_question(flags: InterventionFlags, q: &Question) -> (out: InterventionFlags)
    ensures
        out == flagged(flags, q@),
{
    match q {
        Question::Conflict { .. } => InterventionFlags { conflicts: true, ..flags },
        Question::RemovePkgs { .. } => InterventionFlags { removals: true, ..flags },
        Question::Replace { .. } => InterventionFlags { removals: true, ..flags },
        Question::ImportKey { .. } => InterventionFlags { import_keys: true, ..flags },
        _ => flags,
    }
}

/// The flags raised by a whole run of questions.
pub fn note_all(questions: &Vec<Question>) -> (out: InterventionFlags)
    ensures
        out == flagged_all(no_flags(), question_views(questions@)),
{
    let mut flags = InterventionFlags { conflicts: false, removals: false, import_keys: false };
    let mut i: usize = 0;
    while i < questions.len()
        invariant
            i <= questions.len(),
            flags == flagged_all(no_flags(), question_views(questions@).take(i as int)),
        decreases questions.len() - i,
    {
        proof {
            let next = question_views(questions@).take(i + 1);
            assert(next.drop_last() =~= question_views(questions@).take(i as int));
            assert(next.last() == questions@[i as int]@);
        }
        flags = note_question(flags, &questions[i]);
        i += 1;
    }
    assert(question_views(questions@).take(questions@.len() as int) =~= question_views(
        questions@,
    ));
    flags
}

/// The record of a dry run holds, for every kind of question that leaves an
/// entry, exactly the questions of that kind that were raised, in the order
/// raised: none is dropped, none is doubled, none changes place. Removal
/// questions contribute the packages they name, in order.
pub proof fn lemma_record_is_complete_and_ordered(qs: Seq<QuestionView>)
    ensures
        recorded_all(empty_record(), qs).conflicts == conflicts_raised(qs),
        recorded_all(empty_record(), qs).replacements == replacements_raised(qs),
        recorded_all(empty_record(), qs).providers == providers_raised(qs),
        recorded_all(empty_record(), qs).import_keys == keys_raised(qs),
        recorded_all(empty_record(), qs).removals == removals_raised(qs),
    decreases qs.len(),
{
    reveal(Seq::filter);
    if qs.len() == 0 {
        assert(conflicts_raised(qs) =~= Seq::empty());
        assert(replacements_raised(qs) =~= Seq::empty());
        assert(providers_raised(qs) =~= Seq::empty());
        assert(keys_raised(qs) =~= Seq::empty());
    } else {
        let init = qs.drop_last();
        let q = qs.last();
        lemma_record_is_complete_and_ordered(init);
        assert(qs =~= init.push(q));
        let is_conflict = |q: QuestionView| q is Conflict;
        let is_replace = |q: QuestionView| q is Replace;
        let is_provider = |q: QuestionView| q is SelectProvider;
        let is_key = |q: QuestionView| q is ImportKey;
        assert(conflicts_raised(qs) =~= if q is Conflict {
            conflicts_raised(init).push((q->package1, q->package2))
        } else {
            conflicts_raised(init)
        }) by {
            assert(qs.filter(is_conflict) == if is_conflict(q) {
                init.filter(is_conflict).push(q)
            } else {
                init.filter(is_conflict)
            });
        }
        assert(replacements_raised(qs) =~= if q is Replace {
            replacements_raised(init).push((q->old_package, q->new_package))
        } else {
            replacements_raised(init)
        }) by {
            assert(qs.filter(is_replace) == if is_replace(q) {
                init.filter(is_replace).push(q)
            } else {
                init.filter(is_replace)
            });
        }
        assert(providers_raised(qs) =~= if q is SelectProvider {
            providers_raised(init).push((q->dependency, q->providers))
        } else {
            providers_raised(init)
        }) by {
            assert(qs.filter(is_provider) == if is_provider(q) {
                init.filter(is_provider).push(q)
            } else {
                init.filter(is_provider)
            });
        }
        assert(keys_raised(qs) =~= if q is ImportKey {
            keys_raised(init).push((q->fingerprint, q->uid))
        } else {
            keys_raised(init)
        }) by {
            assert(qs.filter(is_key) == if is_key(q) {
                init.filter(is_key).push(q)
            } else {
                init.filter(is_key)
            });
        }
    }
}

/// Recording one run of questions after another is recording the two runs
/// in a row.
pub proof fn lemma_record_in_two_parts(
    state: PreflightStateView,
    first: Seq<QuestionView>,
    second: Seq<QuestionView>,
)
    ensures
        recorded_all(recorded_all(state, first), second) == recorded_all(state, first + second),
    decreases second.len(),
{
    if second.len() == 0 {
        assert(first + second =~= first);
    } else {
        lemma_record_in_two_parts(state, first, second.drop_last());
        assert((first + second).drop_last() =~= first + second.drop_last());
        assert((first + second).last() == second.last());
    }
}

/// One question that leaves an entry adds exactly one entry to the record,
/// save a removal question, which adds one entry for each package it names;
/// a question that leaves none changes nothing.
pub proof fn lemma_one_entry_per_question(state: PreflightStateView, q: QuestionView)
    ensures
        ({
            let after = recorded(state, q);
            let before_total = state.conflicts.len() + state.replacements.len()
                + state.providers.len() + state.import_keys.len() + state.removals.len();
            let after_total = after.conflicts.len() + after.replacements.len()
                + after.providers.len() + after.import_keys.len() + after.removals.len();
            &&& !leaves_entry(q) ==> after == state
            &&& leaves_entry(q) && !(q is RemovePkgs) ==> after_total == before_total + 1
            &&& q matches QuestionView::RemovePkgs { packages } ==> after_total == before_total
                + packages.len()
        }),
{
}

/// Two dry runs over the same questions keep the same record.
pub proof fn lemma_record_is_repeatable(first: Seq<QuestionView>, second: Seq<QuestionView>)
    requires
        first == second,
    ensures
        recorded_all(empty_record(), first) == recorded_all(empty_record(), second),
{
}

} // verus!
