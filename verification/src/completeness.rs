//! What it means for a kinetic model to be complete, and what is reported
//! when it is not.
//!
//! A model with no states is accepted as it stands. Otherwise the first
//! transition, in list order, that names an undeclared state is reported,
//! its source before its target. If every transition joins declared states,
//! the first state without an incoming transition is reported; if every
//! state has one, the first state without an outgoing transition. A model
//! that gives no cause for any of these is accepted.

use vstd::prelude::*;
use crate::diagnostic::{Diagnostic, DiagnosticView};
use crate::model::{KineticModel, KineticModelView};

verus! {

impl KineticModelView {
    /// Some state of the model carries the identifier `id`.
    pub open spec fn declares(self, id: Seq<char>) -> bool {
        exists|i: int| 0 <= i < self.states.len() && (#[trigger] self.states[i]).id == id
    }

    /// Some transition of the model ends at `id`.
    pub open spec fn has_incoming(self, id: Seq<char>) -> bool {
        exists|j: int|
            0 <= j < self.transitions.len() && (#[trigger] self.transitions[j]).target_state_id
                == id
    }

    /// Some transition of the model starts at `id`.
    pub open spec fn has_outgoing(self, id: Seq<char>) -> bool {
        exists|j: int|
            0 <= j < self.transitions.len() && (#[trigger] self.transitions[j]).source_state_id
                == id
    }

    /// Transition `j` names a state that the model does not declare.
    pub open spec fn dangling(self, j: int) -> bool {
        ||| !self.declares(self.transitions[j].source_state_id)
        ||| !self.declares(self.transitions[j].target_state_id)
    }

    /// No transition ends at state `i`.
    pub open spec fn unfed(self, i: int) -> bool {
        !self.has_incoming(self.states[i].id)
    }

    /// No transition starts at state `i`.
    pub open spec fn undrained(self, i: int) -> bool {
        !self.has_outgoing(self.states[i].id)
    }

    /// Every transition joins two declared states.
    pub open spec fn well_referenced(self) -> bool {
        forall|j: int| 0 <= j < self.transitions.len() ==> !#[trigger] self.dangling(j)
    }

    /// Every state has an incoming transition.
    pub open spec fn all_fed(self) -> bool {
        forall|i: int| 0 <= i < self.states.len() ==> !#[trigger] self.unfed(i)
    }

    /// Every state has an outgoing transition.
    pub open spec fn all_drained(self) -> bool {
        forall|i: int| 0 <= i < self.states.len() ==> !#[trigger] self.undrained(i)
    }

    /// Every transition joins declared states, and every state has both an
    /// incoming and an outgoing transition.
    pub open spec fn complete(self) -> bool {
        self.well_referenced() && self.all_fed() && self.all_drained()
    }

    /// Transition `j` is the first, in list order, that names an undeclared
    /// state.
    pub open spec fn first_dangling(self, j: int) -> bool {
        &&& 0 <= j < self.transitions.len()
        &&& self.dangling(j)
        &&& forall|k: int| 0 <= k < j ==> !#[trigger] self.dangling(k)
    }

    /// State `i` is the first, in list order, without an incoming transition.
    pub open spec fn first_unfed(self, i: int) -> bool {
        &&& 0 <= i < self.states.len()
        &&& self.unfed(i)
        &&& forall|k: int| 0 <= k < i ==> !#[trigger] self.unfed(k)
    }

    /// State `i` is the first, in list order, without an outgoing transition.
    pub open spec fn first_undrained(self, i: int) -> bool {
        &&& 0 <= i < self.states.len()
        &&& self.undrained(i)
        &&& forall|k: int| 0 <= k < i ==> !#[trigger] self.undrained(k)
    }

    /// The outcome of validation: `None` where the model is
    /// accepted, otherwise the one diagnostic that is reported.
    pub open spec fn verdict(self) -> Option<DiagnosticView> {
        if self.states.len() == 0 {
            None
        } else if exists|j: int| self.first_dangling(j) {
            let t = self.transitions[choose|j: int| self.first_dangling(j)];
            if !self.declares(t.source_state_id) {
                Some(DiagnosticView::InvalidSourceReference(t.id))
            } else {
                Some(DiagnosticView::InvalidTargetReference(t.id))
            }
        } else if exists|i: int| self.first_unfed(i) {
            let s = self.states[choose|i: int| self.first_unfed(i)];
            Some(DiagnosticView::MissingIncomingTransition(s.id))
        } else if exists|i: int| self.first_undrained(i) {
            let s = self.states[choose|i: int| self.first_undrained(i)];
            Some(DiagnosticView::MissingOutgoingTransition(s.id))
        } else {
            None
        }
    }
}

/// What a result of validation says, over views: `None` for
/// acceptance, otherwise the view of the diagnostic.
pub open spec fn outcome(result: Result<(), Diagnostic>) -> Option<DiagnosticView> {
    match result {
        Ok(_) => None,
        Err(diagnostic) => Some(diagnostic@),
    }
}

/// A model without states is accepted, whatever its transitions are.
pub proof fn lemma_empty_model_accepted(model: KineticModelView)
    requires
        model.states.len() == 0,
    ensures
        model.verdict() is None,
{
}

/// A model with at least one state in which every transition joins declared
/// states and every state has an incoming and an outgoing transition is
/// accepted.
pub proof fn lemma_complete_model_accepted(model: KineticModelView)
    requires
        model.states.len() > 0,
        model.complete(),
    ensures
        model.verdict() is None,
{
}

/// In a model with at least one state, if the first transition that names
/// an undeclared state does so as its source, validation reports an invalid
/// source reference with that transition's identifier. Whether any state
/// lacks an incoming or outgoing transition plays no part.
pub proof fn lemma_invalid_source_reported(model: KineticModelView, j: int)
    requires
        model.states.len() > 0,
        model.first_dangling(j),
        !model.declares(model.transitions[j].source_state_id),
    ensures
        model.verdict() == Some(
            DiagnosticView::InvalidSourceReference(model.transitions[j].id),
        ),
{
    let chosen = choose|k: int| model.first_dangling(k);
    assert(chosen == j);
}

/// In a model with at least one state, if the first transition that names
/// an undeclared state has a declared source, so that its target is the
/// undeclared one, validation reports an invalid target reference with that
/// transition's identifier.
pub proof fn lemma_invalid_target_reported(model: KineticModelView, j: int)
    requires
        model.states.len() > 0,
        model.first_dangling(j),
        model.declares(model.transitions[j].source_state_id),
    ensures
        !model.declares(model.transitions[j].target_state_id),
        model.verdict() == Some(
            DiagnosticView::InvalidTargetReference(model.transitions[j].id),
        ),
{
    let chosen = choose|k: int| model.first_dangling(k);
    assert(chosen == j);
}

/// In a model with at least one state, a transition that names an
/// undeclared state is never passed over: validation fails with a reference
/// error, whatever the states' incoming and outgoing transitions are.
pub proof fn lemma_dangling_reference_rejected(model: KineticModelView)
    requires
        model.states.len() > 0,
        !model.well_referenced(),
    ensures
        model.verdict() matches Some(diagnostic) && (diagnostic is InvalidSourceReference
            || diagnostic is InvalidTargetReference),
{
    let j = least_dangling(model, model.transitions.len() as int);
    assert(model.first_dangling(j));
}

/// If every transition joins declared states and some state has no incoming
/// transition, validation reports the first such state as missing an
/// incoming transition, whether or not states also lack outgoing ones.
pub proof fn lemma_missing_incoming_reported(model: KineticModelView, i: int)
    requires
        model.well_referenced(),
        model.first_unfed(i),
    ensures
        model.verdict() == Some(DiagnosticView::MissingIncomingTransition(model.states[i].id)),
{
    let chosen = choose|k: int| model.first_unfed(k);
    assert(chosen == i);
}

/// If every transition joins declared states, every state has an incoming
/// transition and some state has no outgoing transition, validation reports
/// the first such state as missing an outgoing transition.
pub proof fn lemma_missing_outgoing_reported(model: KineticModelView, i: int)
    requires
        model.well_referenced(),
        model.all_fed(),
        model.first_undrained(i),
    ensures
        model.verdict() == Some(DiagnosticView::MissingOutgoingTransition(model.states[i].id)),
{
    let chosen = choose|k: int| model.first_undrained(k);
    assert(chosen == i);
}

/// A model is accepted exactly when it has no states or is complete.
pub proof fn lemma_accepted_iff_complete(model: KineticModelView)
    ensures
        model.verdict() is None <==> model.states.len() == 0 || model.complete(),
{
    if model.states.len() > 0 {
        if !model.well_referenced() {
            let j = least_dangling(model, model.transitions.len() as int);
            assert(model.first_dangling(j));
        } else if !model.all_fed() {
            let i = least_unfed(model, model.states.len() as int);
            assert(model.first_unfed(i));
        } else if !model.all_drained() {
            let i = least_undrained(model, model.states.len() as int);
            assert(model.first_undrained(i));
        }
    }
}

/// The verdict, case by case: acceptance exactly of the models that have no
/// states or are complete, and for every way of being rejected the
/// diagnostic that is reported.
pub proof fn lemma_verdict_by_cases(model: KineticModelView)
    ensures
        model.states.len() == 0 ==> model.verdict() is None,
        model.complete() ==> model.verdict() is None,
        model.verdict() is None ==> model.states.len() == 0 || model.complete(),
        model.states.len() > 0 && !model.well_referenced() ==> (model.verdict() matches Some(
            diagnostic,
        ) && (diagnostic is InvalidSourceReference || diagnostic is InvalidTargetReference)),
        forall|j: int|
            model.states.len() > 0 && #[trigger] model.first_dangling(j) && !model.declares(
                model.transitions[j].source_state_id,
            ) ==> model.verdict() == Some(
                DiagnosticView::InvalidSourceReference(model.transitions[j].id),
            ),
        forall|j: int|
            model.states.len() > 0 && #[trigger] model.first_dangling(j) && model.declares(
                model.transitions[j].source_state_id,
            ) ==> model.verdict() == Some(
                DiagnosticView::InvalidTargetReference(model.transitions[j].id),
            ),
        forall|i: int|
            model.well_referenced() && #[trigger] model.first_unfed(i) ==> model.verdict() == Some(
                DiagnosticView::MissingIncomingTransition(model.states[i].id),
            ),
        forall|i: int|
            model.well_referenced() && model.all_fed() && #[trigger] model.first_undrained(i)
                ==> model.verdict() == Some(
                DiagnosticView::MissingOutgoingTransition(model.states[i].id),
            ),
{
    lemma_accepted_iff_complete(model);
    if model.states.len() > 0 && !model.well_referenced() {
        lemma_dangling_reference_rejected(model);
    }
    assert forall|j: int|
        model.states.len() > 0 && #[trigger] model.first_dangling(j) && !model.declares(
            model.transitions[j].source_state_id,
        ) implies model.verdict() == Some(
        DiagnosticView::InvalidSourceReference(model.transitions[j].id),
    ) by {
        lemma_invalid_source_reported(model, j);
    }
    assert forall|j: int|
        model.states.len() > 0 && #[trigger] model.first_dangling(j) && model.declares(
            model.transitions[j].source_state_id,
        ) implies model.verdict() == Some(
        DiagnosticView::InvalidTargetReference(model.transitions[j].id),
    ) by {
        lemma_invalid_target_reported(model, j);
    }
    assert forall|i: int|
        model.well_referenced() && #[trigger] model.first_unfed(i) implies model.verdict() == Some(
        DiagnosticView::MissingIncomingTransition(model.states[i].id),
    ) by {
        lemma_missing_incoming_reported(model, i);
    }
    assert forall|i: int|
        model.well_referenced() && model.all_fed() && #[trigger] model.first_undrained(
            i,
        ) implies model.verdict() == Some(
        DiagnosticView::MissingOutgoingTransition(model.states[i].id),
    ) by {
        lemma_missing_outgoing_reported(model, i);
    }
}

/// Below any bound under which some transition dangles lies a first one.
proof fn least_dangling(model: KineticModelView, bound: int) -> (j: int)
    requires
        0 <= bound <= model.transitions.len(),
        exists|k: int| 0 <= k < bound && model.dangling(k),
    ensures
        j < bound,
        model.first_dangling(j),
    decreases bound,
{
    if exists|k: int| 0 <= k < bound - 1 && model.dangling(k) {
        least_dangling(model, bound - 1)
    } else {
        bound - 1
    }
}

/// Below any bound under which some state is unfed lies a first one.
proof fn least_unfed(model: KineticModelView, bound: int) -> (i: int)
    requires
        0 <= bound <= model.states.len(),
        exists|k: int| 0 <= k < bound && model.unfed(k),
    ensures
        i < bound,
        model.first_unfed(i),
    decreases bound,
{
    if exists|k: int| 0 <= k < bound - 1 && model.unfed(k) {
        least_unfed(model, bound - 1)
    } else {
        bound - 1
    }
}

/// Below any bound under which some state is undrained lies a first one.
proof fn least_undrained(model: KineticModelView, bound: int) -> (i: int)
    requires
        0 <= bound <= model.states.len(),
        exists|k: int| 0 <= k < bound && model.undrained(k),
    ensures
        i < bound,
        model.first_undrained(i),
    decreases bound,
{
    if exists|k: int| 0 <= k < bound - 1 && model.undrained(k) {
        least_undrained(model, bound - 1)
    } else {
        bound - 1
    }
}

/// Validation is repeatable: two results that report the verdict of the same
/// model agree, in acceptance and in the diagnostic.
pub proof fn lemma_validation_repeatable(
    model: KineticModel,
    first: Result<(), Diagnostic>,
    second: Result<(), Diagnostic>,
)
    requires
        outcome(first) == model@.verdict(),
        outcome(second) == model@.verdict(),
    ensures
        first is Ok <==> second is Ok,
        first is Err ==> second is Err && first->Err_0@ == second->Err_0@,
{
}

} // verus!
