//! What validation reports when a model is rejected.

use vstd::prelude::*;
use vstd::string::*;

verus! {

/// The reason a model was rejected, with the identifier of the offending
/// entity.
#[derive(Clone, Debug, PartialEq, Eq)]
pub enum Diagnostic {
    /// The named transition starts at a state that the model does not declare.
    InvalidSourceReference(String),
    /// The named transition ends at a state that the model does not declare.
    InvalidTargetReference(String),
    /// No transition ends at the named state.
    MissingIncomingTransition(String),
    /// No transition starts at the named state.
    MissingOutgoingTransition(String),
}

/// The mathematical content of a [`Diagnostic`].
pub enum DiagnosticView {
    InvalidSourceReference(Seq<char>),
    InvalidTargetReference(Seq<char>),
    MissingIncomingTransition(Seq<char>),
    MissingOutgoingTransition(Seq<char>),
}

impl View for Diagnostic {
    type V = DiagnosticView;

    open spec fn view(&self) -> DiagnosticView {
        match self {
            Diagnostic::InvalidSourceReference(id) => DiagnosticView::InvalidSourceReference(id@),
            Diagnostic::InvalidTargetReference(id) => DiagnosticView::InvalidTargetReference(id@),
            Diagnostic::MissingIncomingTransition(id) => DiagnosticView::MissingIncomingTransition(
                id@,
            ),
            Diagnostic::MissingOutgoingTransition(id) => DiagnosticView::MissingOutgoingTransition(
                id@,
            ),
        }
    }
}

impl DiagnosticView {
    /// The identifier of the transition or state that the diagnostic names.
    pub open spec fn subject(self) -> Seq<char> {
        match self {
            DiagnosticView::InvalidSourceReference(id) => id,
            DiagnosticView::InvalidTargetReference(id) => id,
            DiagnosticView::MissingIncomingTransition(id) => id,
            DiagnosticView::MissingOutgoingTransition(id) => id,
        }
    }

    /// The words before the identifier: they tell a transition from a state.
    pub open spec fn opening(self) -> Seq<char> {
        match self {
            DiagnosticView::InvalidSourceReference(_) => "Transition '"@,
            DiagnosticView::InvalidTargetReference(_) => "Transition '"@,
            DiagnosticView::MissingIncomingTransition(_) => "State '"@,
            DiagnosticView::MissingOutgoingTransition(_) => "State '"@,
        }
    }

    /// The words after the identifier: they say what is wrong with the
    /// entity.
    pub open spec fn closing(self) -> Seq<char> {
        match self {
            DiagnosticView::InvalidSourceReference(_) => "' has an invalid source state ID."@,
            DiagnosticView::InvalidTargetReference(_) => "' has an invalid target state ID."@,
            DiagnosticView::MissingIncomingTransition(_) =>
                "' is incomplete: requires at least one incoming transition"@,
            DiagnosticView::MissingOutgoingTransition(_) =>
                "' is incomplete: requires at least one outgoing transition"@,
        }
    }

    /// The text shown to the user: the kind of failure around the quoted
    /// identifier of the offending entity.
    pub open spec fn message(self) -> Seq<char> {
        self.opening() + self.subject() + self.closing()
    }
}

/// The message tells the diagnostic: two diagnostics with the same text are
/// of the same kind and name the same identifier.
pub proof fn lemma_message_tells_diagnostic(a: DiagnosticView, b: DiagnosticView)
    requires
        a.message() == b.message(),
    ensures
        a == b,
{
    reveal_strlit("Transition '");
    reveal_strlit("State '");
    reveal_strlit("' has an invalid source state ID.");
    reveal_strlit("' has an invalid target state ID.");
    reveal_strlit("' is incomplete: requires at least one incoming transition");
    reveal_strlit("' is incomplete: requires at least one outgoing transition");
    let text = a.message();
    // The first character tells a transition from a state.
    assert(text[0] == a.opening()[0] && text[0] == b.opening()[0]);
    assert(a.opening() == b.opening());
    // The closing words have one length for each kind of entity, so the
    // identifiers are equally long and the closing words line up.
    assert(a.closing().len() == b.closing().len());
    assert(text.len() == a.opening().len() + a.subject().len() + a.closing().len());
    assert(text.len() == b.opening().len() + b.subject().len() + b.closing().len());
    let at = a.opening().len() + a.subject().len();
    assert forall|k: int| 0 <= k < a.closing().len() implies a.closing()[k] == b.closing()[k] by {
        assert(text[at + k] == a.closing()[k]);
        assert(text[at + k] == b.closing()[k]);
    }
    assert(a.closing()[17] == b.closing()[17]);
    assert(a.closing().len() > 39 ==> a.closing()[39] == b.closing()[39]);
    assert forall|k: int| 0 <= k < a.subject().len() implies a.subject()[k] == b.subject()[k] by {
        assert(text[a.opening().len() + k] == a.subject()[k]);
        assert(text[a.opening().len() + k] == b.subject()[k]);
    }
    assert(a.subject() =~= b.subject());
}

/// The text `opening`, then `id`, then `closing`.
fn quote_between(opening: &str, id: &String, closing: &str) -> (text: String)
    ensures
        text@ == opening@ + id@ + closing@,
{
    let mut text = String::from_str(opening);
    text.append(id.as_str());
    text.append(closing);
    text
}

impl Diagnostic {
    /// The identifier of the transition or state that the diagnostic names.
    pub fn subject(&self) -> (id: &String)
        ensures
            id@ == self@.subject(),
    {
        match self {
            Diagnostic::InvalidSourceReference(id) => id,
            Diagnostic::InvalidTargetReference(id) => id,
            Diagnostic::MissingIncomingTransition(id) => id,
            Diagnostic::MissingOutgoingTransition(id) => id,
        }
    }

    /// Renders the diagnostic as the text shown to the user.
    pub fn message(&self) -> (text: String)
        ensures
            text@ == self@.message(),
    {
        match self {
            Diagnostic::InvalidSourceReference(id) => quote_between(
                "Transition '",
                id,
                "' has an invalid source state ID.",
            ),
            Diagnostic::InvalidTargetReference(id) => quote_between(
                "Transition '",
                id,
                "' has an invalid target state ID.",
            ),
            Diagnostic::MissingIncomingTransition(id) => quote_between(
                "State '",
                id,
                "' is incomplete: requires at least one incoming transition",
            ),
            Diagnostic::MissingOutgoingTransition(id) => quote_between(
                "State '",
                id,
                "' is incomplete: requires at least one outgoing transition",
            ),
        }
    }
}

} // verus!
