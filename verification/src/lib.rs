//! Structural validation of kinetic models.
//!
//! A kinetic model is a directed graph: population reservoirs (states) joined
//! by rate-weighted transitions, driven by a time-boxed stimulus. This crate
//! holds the data model and the completeness validator, which decides whether the
//! transition graph of a model is usable: every transition must join declared
//! states, and every declared state must have a transition coming in and a
//! transition going out.
//!
//! Every function of the crate is verified with Verus against the
//! mathematical model given by the views in [`model`] and the predicates in
//! [`completeness`].

pub mod completeness;
pub mod degree;
pub mod diagnostic;
pub mod model;
pub mod validate;

pub use diagnostic::{Diagnostic, DiagnosticView};
pub use model::{
    KineticModel, KineticModelView, Position, Real, SimulationParameters, State, StateView,
    Stimulus, Transition, TransitionView,
};
