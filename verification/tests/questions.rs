use cockpit_pacman_backend::events::StreamEvent;
use cockpit_pacman_backend::questions::{
    answer_question, copy_strings, describe_decision, note_all, note_question, record_all,
    record_each, record_question, Answer, ConflictInfo, InterventionFlags, KeyInfo, PreflightState,
    ProviderChoice, Question, QuestionResponder, ReplacementInfo, ResponderMode,
};

fn s(t: &str) -> String {
    t.to_string()
}

fn all_kinds() -> Vec<Question> {
    vec![
        Question::Conflict { package1: s("a"), package2: s("b") },
        Question::Corrupted { filepath: s("/var/cache/p.pkg") },
        Question::RemovePkgs { packages: vec![s("x"), s("y")] },
        Question::Replace { old_package: s("old"), new_package: s("new") },
        Question::InstallIgnorepkg { package: s("held") },
        Question::SelectProvider { dependency: s("sh"), providers: vec![s("bash"), s("dash")] },
        Question::ImportKey { fingerprint: s("ABCD"), uid: s("Dev <d@e>") },
    ]
}

fn info(message: &str) -> Option<StreamEvent> {
    Some(StreamEvent::Log { level: s("info"), message: s(message) })
}

#[test]
fn answers_follow_the_policy() {
    let answers: Vec<Answer> = all_kinds().iter().map(answer_question).collect();
    assert_eq!(
        answers,
        vec![Answer::Yes, Answer::No, Answer::Yes, Answer::Yes, Answer::No, Answer::Choose(0), Answer::Yes]
    );
}

#[test]
fn record_holds_one_entry_per_question_in_raised_order() {
    let questions = vec![
        Question::Conflict { package1: s("a"), package2: s("b") },
        Question::ImportKey { fingerprint: s("K1"), uid: s("u1") },
        Question::Conflict { package1: s("c"), package2: s("d") },
        Question::Corrupted { filepath: s("f") },
        Question::RemovePkgs { packages: vec![s("x"), s("y")] },
        Question::SelectProvider { dependency: s("sh"), providers: vec![s("bash"), s("dash")] },
        Question::Replace { old_package: s("o1"), new_package: s("n1") },
        Question::Conflict { package1: s("a"), package2: s("b") },
        Question::RemovePkgs { packages: vec![] },
        Question::RemovePkgs { packages: vec![s("z")] },
        Question::InstallIgnorepkg { package: s("p") },
        Question::SelectProvider { dependency: s("awk"), providers: vec![] },
        Question::Replace { old_package: s("o2"), new_package: s("n2") },
        Question::ImportKey { fingerprint: s("K2"), uid: s("u2") },
    ];
    let state = record_all(&questions);
    assert_eq!(
        state,
        PreflightState {
            conflicts: vec![
                ConflictInfo { package1: s("a"), package2: s("b") },
                ConflictInfo { package1: s("c"), package2: s("d") },
                ConflictInfo { package1: s("a"), package2: s("b") },
            ],
            replacements: vec![
                ReplacementInfo { old_package: s("o1"), new_package: s("n1") },
                ReplacementInfo { old_package: s("o2"), new_package: s("n2") },
            ],
            removals: vec![s("x"), s("y"), s("z")],
            providers: vec![
                ProviderChoice { dependency: s("sh"), providers: vec![s("bash"), s("dash")] },
                ProviderChoice { dependency: s("awk"), providers: vec![] },
            ],
            import_keys: vec![
                KeyInfo { fingerprint: s("K1"), uid: s("u1") },
                KeyInfo { fingerprint: s("K2"), uid: s("u2") },
            ],
        }
    );
    // Recording in parts is recording in one go, and recording twice gives the same.
    let mut parts = PreflightState::new();
    record_each(&mut parts, &questions[..5].to_vec());
    record_each(&mut parts, &questions[5..].to_vec());
    assert_eq!(parts, state);
    assert_eq!(record_all(&questions), state);
    let mut one_by_one = PreflightState::new();
    for q in &questions {
        record_question(&mut one_by_one, q);
    }
    assert_eq!(one_by_one, state);
    assert_eq!(record_all(&vec![]), PreflightState::new());
}

#[test]
fn decisions_are_described_in_a_committing_run() {
    let lines: Vec<Option<StreamEvent>> = all_kinds().iter().map(describe_decision).collect();
    assert_eq!(
        lines,
        vec![
            info("Resolving conflict between a and b"),
            Some(StreamEvent::Log {
                level: s("error"),
                message: s("Package /var/cache/p.pkg is corrupted - aborting"),
            }),
            info("Removing packages as confirmed: x, y"),
            info("Replacing old with new"),
            None,
            info("Selecting bash as provider for sh"),
            info("Importing PGP key ABCD (Dev <d@e>)"),
        ]
    );
    assert_eq!(
        describe_decision(&Question::SelectProvider { dependency: s("sh"), providers: vec![] }),
        info("Selecting unknown as provider for sh")
    );
    assert_eq!(
        describe_decision(&Question::RemovePkgs { packages: vec![] }),
        info("Removing packages as confirmed: ")
    );
}

#[test]
fn responder_records_in_a_dry_run_and_logs_in_a_real_one() {
    let mut recorder = QuestionResponder::new(ResponderMode::Record);
    let mut committer = QuestionResponder::new(ResponderMode::Commit);
    for q in all_kinds() {
        let a = recorder.respond(&q);
        let b = committer.respond(&q);
        assert_eq!(a.answer, answer_question(&q));
        assert_eq!(b.answer, a.answer);
        assert_eq!(a.log, None);
        assert_eq!(b.log, describe_decision(&q));
    }
    assert_eq!(recorder.state, record_all(&all_kinds()));
    assert_eq!(committer.state, PreflightState::new());
    assert_eq!(recorder.mode, ResponderMode::Record);
}

#[test]
fn flags_call_for_a_person() {
    let none = InterventionFlags { conflicts: false, removals: false, import_keys: false };
    let flags: Vec<InterventionFlags> = all_kinds().iter().map(|q| note_question(none, q)).collect();
    assert_eq!(
        flags,
        vec![
            InterventionFlags { conflicts: true, ..none },
            none,
            InterventionFlags { removals: true, ..none },
            InterventionFlags { removals: true, ..none },
            none,
            none,
            InterventionFlags { import_keys: true, ..none },
        ]
    );
    assert_eq!(
        note_all(&all_kinds()),
        InterventionFlags { conflicts: true, removals: true, import_keys: true }
    );
    assert_eq!(note_all(&vec![]), none);
    assert_eq!(copy_strings(&vec![s("a"), s("b")]), vec![s("a"), s("b")]);
}
