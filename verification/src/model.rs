//! The entities of a kinetic model and their views.
//!
//! All entities are plain value carriers with public fields. Each has a view
//! that replaces strings by sequences of characters and vectors by
//! sequences; contracts elsewhere in the crate speak of these views only.

use vstd::prelude::*;

verus! {

/// A real-valued quantity, carried as the 64 bits of its IEEE 754 binary64
/// encoding.
///
/// The crate never computes with these quantities; it stores them and hands
/// them back unchanged. Two values are equal when their bit patterns are.
#[derive(Clone, Copy, Debug, PartialEq, Eq, Structural)]
pub struct Real {
    pub bits: u64,
}

/// Where a state is drawn on the canvas. Presentation only.
#[derive(Clone, Copy, Debug, PartialEq, Eq, Structural)]
pub struct Position {
    pub x: Real,
    pub y: Real,
}

/// A population reservoir: a node of the kinetic graph.
///
/// Transitions refer to a state by its `id`.
#[derive(Clone, Debug, PartialEq, Eq)]
pub struct State {
    pub id: String,
    pub name: String,
    pub initial_population: Real,
    pub position: Position,
}

/// A directed, rate-weighted edge between two states, each named by its
/// identifier.
#[derive(Clone, Debug, PartialEq, Eq)]
pub struct Transition {
    pub id: String,
    pub source_state_id: String,
    pub target_state_id: String,
    pub rate_constant: Real,
}

/// An external forcing value, active between `start_time` and `end_time`.
#[derive(Clone, Copy, Debug, PartialEq, Eq, Structural)]
pub struct Stimulus {
    pub start_time: Real,
    pub end_time: Real,
    pub value: Real,
}

/// Length and resolution of a simulation run.
#[derive(Clone, Copy, Debug, PartialEq, Eq, Structural)]
pub struct SimulationParameters {
    pub total_time: Real,
    pub time_step: Real,
}

/// A complete kinetic model. It owns its states and transitions by value;
/// the order of both lists is significant for diagnostics.
#[derive(Clone, Debug, PartialEq, Eq)]
pub struct KineticModel {
    pub model_name: String,
    pub states: Vec<State>,
    pub transitions: Vec<Transition>,
    pub stimulus: Stimulus,
    pub parameters: SimulationParameters,
}

/// The mathematical content of a [`State`].
pub struct StateView {
    pub id: Seq<char>,
    pub name: Seq<char>,
    pub initial_population: Real,
    pub position: Position,
}

/// The mathematical content of a [`Transition`].
pub struct TransitionView {
    pub id: Seq<char>,
    pub source_state_id: Seq<char>,
    pub target_state_id: Seq<char>,
    pub rate_constant: Real,
}

/// The mathematical content of a [`KineticModel`].
pub struct KineticModelView {
    pub model_name: Seq<char>,
    pub states: Seq<StateView>,
    pub transitions: Seq<TransitionView>,
    pub stimulus: Stimulus,
    pub parameters: SimulationParameters,
}

impl View for State {
    type V = StateView;

    open spec fn view(&self) -> StateView {
        StateView {
            id: self.id@,
            name: self.name@,
            initial_population: self.initial_population,
            position: self.position,
        }
    }
}

impl View for Transition {
    type V = TransitionView;

    open spec fn view(&self) -> TransitionView {
        TransitionView {
            id: self.id@,
            source_state_id: self.source_state_id@,
            target_state_id: self.target_state_id@,
            rate_constant: self.rate_constant,
        }
    }
}

impl View for KineticModel {
    type V = KineticModelView;

    open spec fn view(&self) -> KineticModelView {
        KineticModelView {
            model_name: self.model_name@,
            states: self.states@.map_values(|s: State| s@),
            transitions: self.transitions@.map_values(|t: Transition| t@),
            stimulus: self.stimulus,
            parameters: self.parameters,
        }
    }
}

} // verus!
