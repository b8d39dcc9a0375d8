use kinetic_model::Diagnostic;

#[test]
fn invalid_source_message() {
    let d = Diagnostic::InvalidSourceReference("t1".to_string());
    assert_eq!(d.message(), "Transition 't1' has an invalid source state ID.");
}

#[test]
fn invalid_target_message() {
    let d = Diagnostic::InvalidTargetReference("t1".to_string());
    assert_eq!(d.message(), "Transition 't1' has an invalid target state ID.");
}

#[test]
fn missing_incoming_message() {
    let d = Diagnostic::MissingIncomingTransition("A".to_string());
    assert_eq!(
        d.message(),
        "State 'A' is incomplete: requires at least one incoming transition"
    );
}

#[test]
fn missing_outgoing_message() {
    let d = Diagnostic::MissingOutgoingTransition("A".to_string());
    assert_eq!(
        d.message(),
        "State 'A' is incomplete: requires at least one outgoing transition"
    );
}

#[test]
fn message_quotes_the_identifier_verbatim() {
    let d = Diagnostic::InvalidSourceReference(String::new());
    assert_eq!(d.message(), "Transition '' has an invalid source state ID.");
    let d = Diagnostic::MissingIncomingTransition("Zustand 'α' → β".to_string());
    assert_eq!(
        d.message(),
        "State 'Zustand 'α' → β' is incomplete: requires at least one incoming transition"
    );
}

#[test]
fn messages_of_different_kinds_differ() {
    let id = "x".to_string();
    let all = vec![
        Diagnostic::InvalidSourceReference(id.clone()).message(),
        Diagnostic::InvalidTargetReference(id.clone()).message(),
        Diagnostic::MissingIncomingTransition(id.clone()).message(),
        Diagnostic::MissingOutgoingTransition(id.clone()).message(),
    ];
    for a in 0..all.len() {
        for b in 0..all.len() {
            if a != b {
                assert_ne!(all[a], all[b]);
            }
        }
    }
}

#[test]
fn subject_is_the_offending_identifier() {
    assert_eq!(Diagnostic::InvalidSourceReference("t1".to_string()).subject(), "t1");
    assert_eq!(Diagnostic::InvalidTargetReference("t2".to_string()).subject(), "t2");
    assert_eq!(Diagnostic::MissingIncomingTransition("A".to_string()).subject(), "A");
    assert_eq!(Diagnostic::MissingOutgoingTransition("B".to_string()).subject(), "B");
}

#[test]
fn diagnostics_compare_by_kind_and_identifier() {
    let a = Diagnostic::InvalidSourceReference("t1".to_string());
    assert_eq!(a, a.clone());
    assert_ne!(a, Diagnostic::InvalidTargetReference("t1".to_string()));
    assert_ne!(a, Diagnostic::InvalidSourceReference("t2".to_string()));
}
