//! The completeness validator.
//!
//! The validator builds a lookup table from state identifier to state position
//! once, then walks the transitions in list order, counting for every
//! identifier the transitions that end and start at it, and finally walks
//! the states in list order, first for missing incoming and then for
//! missing outgoing transitions.

use vstd::prelude::*;
use vstd::hash_map::StringHashMap;
use crate::completeness::{
    lemma_accepted_iff_complete, lemma_invalid_source_reported, lemma_invalid_target_reported,
    lemma_missing_incoming_reported, lemma_missing_outgoing_reported, lemma_verdict_by_cases,
    outcome,
};
use crate::degree::{
    lemma_arrivals, lemma_departures, lemma_incoming_counted, lemma_outgoing_counted,
};
use crate::diagnostic::{Diagnostic, DiagnosticView};
use crate::model::{KineticModel, State};

verus! {

/// `index` sends every declared identifier, and nothing else, to the
/// position of a state that carries it.
spec fn indexes(index: Map<Seq<char>, usize>, model: KineticModel) -> bool {
    &&& forall|id: Seq<char>| index.contains_key(id) <==> model@.declares(id)
    &&& forall|id: Seq<char>| #[trigger]
        index.contains_key(id) ==> {
            &&& index[id] < model.states.len()
            &&& model.states[index[id] as int].id@ == id
        }
}

/// The counters hold, for every declared identifier and at the position
/// that `index` gives it, how many of the first `upto` transitions end and
/// start there.
spec fn tallied(
    incoming: Seq<usize>,
    outgoing: Seq<usize>,
    index: Map<Seq<char>, usize>,
    model: KineticModel,
    upto: int,
) -> bool {
    &&& incoming.len() == model.states.len()
    &&& outgoing.len() == model.states.len()
    &&& forall|id: Seq<char>| #[trigger]
        index.contains_key(id) ==> {
            &&& incoming[index[id] as int] == model@.arrivals(id, upto)
            &&& outgoing[index[id] as int] == model@.departures(id, upto)
        }
}

impl KineticModel {
    /// Builds the lookup table from state identifier to state position.
    fn index_states(&self) -> (index: StringHashMap<usize>)
        ensures
            indexes(index@, *self),
    {
        let mut index: StringHashMap<usize> = StringHashMap::new();
        let n: usize = self.states.len();
        for i in 0..n
            invariant
                n == self.states.len(),
                forall|id: Seq<char>|
                    index@.contains_key(id) <==> exists|k: int|
                        0 <= k < i && (#[trigger] self@.states[k]).id == id,
                forall|id: Seq<char>| #[trigger]
                    index@.contains_key(id) ==> {
                        &&& index@[id] < i
                        &&& self.states[index@[id] as int].id@ == id
                    },
        {
            let ghost before = index@;
            index.insert(self.states[i].id.clone(), i);
            proof {
                let added = self@.states[i as int].id;
                assert forall|id: Seq<char>| index@.contains_key(id) implies exists|k: int|
                    0 <= k < i + 1 && (#[trigger] self@.states[k]).id == id by {
                    if id != added {
                        assert(before.contains_key(id));
                        let k = choose|k: int|
                            0 <= k < i && (#[trigger] self@.states[k]).id == id;
                        assert(0 <= k < i + 1 && self@.states[k].id == id);
                    }
                }
            }
        }
        index
    }

    /// Decides whether the transition graph of the model is usable.
    ///
    /// A model without states is accepted. Otherwise the transitions are
    /// taken in list order, and the first that names an undeclared state is
    /// reported, its source before its target. If there is none, the states
    /// are taken in list order: the first without an incoming transition is
    /// reported, and if every state has one, the first without an outgoing
    /// transition. A model that gives no cause for a report is accepted.
    pub fn validate_completeness(&self) -> (result: Result<(), Diagnostic>)
        ensures
            outcome(result) == self@.verdict(),
            self@.states.len() == 0 ==> result is Ok,
            self@.complete() ==> result is Ok,
            result is Ok ==> self@.states.len() == 0 || self@.complete(),
            self@.states.len() > 0 && !self@.well_referenced() ==> (result matches Err(diagnostic)
                && (diagnostic is InvalidSourceReference || diagnostic is InvalidTargetReference)),
            forall|j: int|
                self@.states.len() > 0 && #[trigger] self@.first_dangling(j) && !self@.declares(
                    self@.transitions[j].source_state_id,
                ) ==> outcome(result) == Some(
                    DiagnosticView::InvalidSourceReference(self@.transitions[j].id),
                ),
            forall|j: int|
                self@.states.len() > 0 && #[trigger] self@.first_dangling(j) && self@.declares(
                    self@.transitions[j].source_state_id,
                ) ==> outcome(result) == Some(
                    DiagnosticView::InvalidTargetReference(self@.transitions[j].id),
                ),
            forall|i: int|
                self@.well_referenced() && #[trigger] self@.first_unfed(i) ==> outcome(result)
                    == Some(DiagnosticView::MissingIncomingTransition(self@.states[i].id)),
            forall|i: int|
                self@.well_referenced() && self@.all_fed() && #[trigger] self@.first_undrained(i)
                    ==> outcome(result) == Some(
                    DiagnosticView::MissingOutgoingTransition(self@.states[i].id),
                ),
    {
        let result = self.scan();
        proof {
            lemma_verdict_by_cases(self@);
        }
        result
    }

    /// Walks the transitions, then the states, and stops at the first cause
    /// for a report.
    fn scan(&self) -> (result: Result<(), Diagnostic>)
        ensures
            outcome(result) == self@.verdict(),
    {
        if self.states.len() == 0 {
            return Ok(());
        }
        let index = self.index_states();
        let n: usize = self.states.len();
        let m: usize = self.transitions.len();
        let mut incoming: Vec<usize> = vec![0usize; n];
        let mut outgoing: Vec<usize> = vec![0usize; n];

        for j in 0..m
            invariant
                n == self.states.len(),
                n > 0,
                m == self.transitions.len(),
                indexes(index@, *self),
                tallied(incoming@, outgoing@, index@, *self, j as int),
                forall|k: int| 0 <= k < j ==> !#[trigger] self@.dangling(k),
        {
            let transition = &self.transitions[j];
            let ghost source = transition.source_state_id@;
            let ghost target = transition.target_state_id@;
            assert(self@.transitions[j as int] == transition@);

            let from: usize = match index.get(transition.source_state_id.as_str()) {
                Some(position) => *position,
                None => {
                    proof {
                        lemma_invalid_source_reported(self@, j as int);
                    }
                    return Err(Diagnostic::InvalidSourceReference(transition.id.clone()));
                },
            };
            proof {
                lemma_departures(self@, source, j as int);
            }
            outgoing.set(from, outgoing[from] + 1);

            let to: usize = match index.get(transition.target_state_id.as_str()) {
                Some(position) => *position,
                None => {
                    proof {
                        lemma_invalid_target_reported(self@, j as int);
                    }
                    return Err(Diagnostic::InvalidTargetReference(transition.id.clone()));
                },
            };
            proof {
                lemma_arrivals(self@, target, j as int);
            }
            incoming.set(to, incoming[to] + 1);

            assert(tallied(incoming@, outgoing@, index@, *self, j + 1)) by {
                assert forall|id: Seq<char>| #[trigger] index@.contains_key(id) implies {
                    &&& incoming@[index@[id] as int] == self@.arrivals(id, j + 1)
                    &&& outgoing@[index@[id] as int] == self@.departures(id, j + 1)
                } by {
                    assert(self.states[index@[id] as int].id@ == id);
                    assert(self.states[from as int].id@ == source);
                    assert(self.states[to as int].id@ == target);
                }
            }
        }

        for i in 0..n
            invariant
                n == self.states.len(),
                n > 0,
                m == self.transitions.len(),
                indexes(index@, *self),
                tallied(incoming@, outgoing@, index@, *self, m as int),
                self@.well_referenced(),
                forall|k: int| 0 <= k < i ==> !#[trigger] self@.unfed(k),
        {
            let state = &self.states[i];
            assert(self@.states[i as int] == state@);
            proof {
                assert(index@.contains_key(state.id@));
                lemma_incoming_counted(self@, state.id@);
            }
            if self.tally_at(&index, &incoming, state) == 0 {
                proof {
                    lemma_missing_incoming_reported(self@, i as int);
                }
                return Err(Diagnostic::MissingIncomingTransition(state.id.clone()));
            }
        }

        for i in 0..n
            invariant
                n == self.states.len(),
                n > 0,
                m == self.transitions.len(),
                indexes(index@, *self),
                tallied(incoming@, outgoing@, index@, *self, m as int),
                self@.well_referenced(),
                self@.all_fed(),
                forall|k: int| 0 <= k < i ==> !#[trigger] self@.undrained(k),
        {
            let state = &self.states[i];
            assert(self@.states[i as int] == state@);
            proof {
                assert(index@.contains_key(state.id@));
                lemma_outgoing_counted(self@, state.id@);
            }
            if self.tally_at(&index, &outgoing, state) == 0 {
                proof {
                    lemma_missing_outgoing_reported(self@, i as int);
                }
                return Err(Diagnostic::MissingOutgoingTransition(state.id.clone()));
            }
        }

        proof {
            lemma_accepted_iff_complete(self@);
        }
        Ok(())
    }

    /// Reads the counter kept for the identifier of `state`.
    fn tally_at(
        &self,
        index: &StringHashMap<usize>,
        counters: &Vec<usize>,
        state: &State,
    ) -> (count: usize)
        requires
            indexes(index@, *self),
            counters.len() == self.states.len(),
            self@.declares(state.id@),
        ensures
            count == counters[index@[state.id@] as int],
    {
        match index.get(state.id.as_str()) {
            Some(position) => counters[*position],
            // Every declared identifier is in the index: this arm is never taken.
            None => 0,
        }
    }
}

} // verus!
