//! Counting the transitions that end or start at a state identifier.
//!
//! The validator keeps, for every declared identifier, the number of
//! transitions processed so far that end at it and the number that start at
//! it. The functions here say what those numbers are and tie them to
//! [`KineticModelView::has_incoming`] and [`KineticModelView::has_outgoing`].

use vstd::prelude::*;
use crate::model::KineticModelView;

verus! {

impl KineticModelView {
    /// How many of the first `upto` transitions end at `id`.
    pub open spec fn arrivals(self, id: Seq<char>, upto: int) -> nat
        decreases upto,
    {
        if upto <= 0 {
            0
        } else if self.transitions[upto - 1].target_state_id == id {
            self.arrivals(id, upto - 1) + 1
        } else {
            self.arrivals(id, upto - 1)
        }
    }

    /// How many of the first `upto` transitions start at `id`.
    pub open spec fn departures(self, id: Seq<char>, upto: int) -> nat
        decreases upto,
    {
        if upto <= 0 {
            0
        } else if self.transitions[upto - 1].source_state_id == id {
            self.departures(id, upto - 1) + 1
        } else {
            self.departures(id, upto - 1)
        }
    }
}

/// Among the first `upto` transitions at most `upto` end at `id`, and none
/// does exactly when the count is zero.
pub proof fn lemma_arrivals(model: KineticModelView, id: Seq<char>, upto: int)
    requires
        0 <= upto <= model.transitions.len(),
    ensures
        model.arrivals(id, upto) <= upto,
        model.arrivals(id, upto) == 0 <==> forall|j: int|
            0 <= j < upto ==> (#[trigger] model.transitions[j]).target_state_id != id,
    decreases upto,
{
    if upto > 0 {
        lemma_arrivals(model, id, upto - 1);
    }
}

/// Among the first `upto` transitions at most `upto` start at `id`, and none
/// does exactly when the count is zero.
pub proof fn lemma_departures(model: KineticModelView, id: Seq<char>, upto: int)
    requires
        0 <= upto <= model.transitions.len(),
    ensures
        model.departures(id, upto) <= upto,
        model.departures(id, upto) == 0 <==> forall|j: int|
            0 <= j < upto ==> (#[trigger] model.transitions[j]).source_state_id != id,
    decreases upto,
{
    if upto > 0 {
        lemma_departures(model, id, upto - 1);
    }
}

/// A state identifier has an incoming transition exactly when the count of
/// transitions that end at it, over the whole list, is at least one.
pub proof fn lemma_incoming_counted(model: KineticModelView, id: Seq<char>)
    ensures
        model.has_incoming(id) <==> model.arrivals(id, model.transitions.len() as int) >= 1,
{
    lemma_arrivals(model, id, model.transitions.len() as int);
}

/// A state identifier has an outgoing transition exactly when the count of
/// transitions that start at it, over the whole list, is at least one.
pub proof fn lemma_outgoing_counted(model: KineticModelView, id: Seq<char>)
    ensures
        model.has_outgoing(id) <==> model.departures(id, model.transitions.len() as int) >= 1,
{
    lemma_departures(model, id, model.transitions.len() as int);
}

} // verus!
