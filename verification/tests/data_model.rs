use kinetic_model::{
    KineticModel, Position, Real, SimulationParameters, State, Stimulus, Transition,
};

fn quantity(value: f64) -> Real {
    Real { bits: value.to_bits() }
}

fn sample() -> KineticModel {
    KineticModel {
        model_name: "binding".to_string(),
        states: vec![
            State {
                id: "free".to_string(),
                name: "Free receptor".to_string(),
                initial_population: quantity(100.0),
                position: Position { x: quantity(10.0), y: quantity(-4.5) },
            },
            State {
                id: "bound".to_string(),
                name: "Bound receptor".to_string(),
                initial_population: quantity(0.0),
                position: Position { x: quantity(120.0), y: quantity(-4.5) },
            },
        ],
        transitions: vec![
            Transition {
                id: "on".to_string(),
                source_state_id: "free".to_string(),
                target_state_id: "bound".to_string(),
                rate_constant: quantity(0.25),
            },
            Transition {
                id: "off".to_string(),
                source_state_id: "bound".to_string(),
                target_state_id: "free".to_string(),
                rate_constant: quantity(0.01),
            },
        ],
        stimulus: Stimulus {
            start_time: quantity(1.0),
            end_time: quantity(2.0),
            value: quantity(5.0),
        },
        parameters: SimulationParameters { total_time: quantity(10.0), time_step: quantity(0.001) },
    }
}

#[test]
fn real_keeps_the_quantity_it_was_given() {
    for value in [0.0, -0.0, 1.5, -273.15, f64::MAX, f64::MIN_POSITIVE, f64::INFINITY] {
        let r = quantity(value);
        assert_eq!(f64::from_bits(r.bits).to_bits(), value.to_bits());
    }
    assert_eq!(quantity(1.5).bits, 0x3ff8_0000_0000_0000);
}

#[test]
fn real_equality_is_equality_of_bits() {
    assert_eq!(quantity(2.5), quantity(2.5));
    assert_ne!(quantity(2.5), quantity(2.25));
    assert_ne!(quantity(0.0), quantity(-0.0));
}

#[test]
fn models_compare_field_by_field() {
    let a = sample();
    let b = sample();
    assert_eq!(a, b);

    let mut renamed = sample();
    renamed.model_name = "other".to_string();
    assert_ne!(a, renamed);

    let mut moved = sample();
    moved.states[1].position.x = quantity(121.0);
    assert_ne!(a, moved);

    let mut rewired = sample();
    rewired.transitions[0].target_state_id = "free".to_string();
    assert_ne!(a, rewired);

    let mut retimed = sample();
    retimed.stimulus.end_time = quantity(3.0);
    assert_ne!(a, retimed);

    let mut refined = sample();
    refined.parameters.time_step = quantity(0.01);
    assert_ne!(a, refined);
}

#[test]
fn order_of_states_and_transitions_is_part_of_the_value() {
    let a = sample();
    let mut swapped = sample();
    swapped.states.swap(0, 1);
    assert_ne!(a, swapped);
    let mut reordered = sample();
    reordered.transitions.swap(0, 1);
    assert_ne!(a, reordered);
}

#[test]
fn clone_is_an_equal_value() {
    let a = sample();
    let b = a.clone();
    assert_eq!(a, b);
    assert_eq!(a.states[0], b.states[0]);
    assert_eq!(a.transitions[1], b.transitions[1]);
}

#[test]
fn fields_are_read_back_as_written() {
    let m = sample();
    assert_eq!(m.model_name, "binding");
    assert_eq!(m.states.len(), 2);
    assert_eq!(m.states[0].id, "free");
    assert_eq!(m.states[0].name, "Free receptor");
    assert_eq!(f64::from_bits(m.states[0].initial_population.bits), 100.0);
    assert_eq!(f64::from_bits(m.states[0].position.y.bits), -4.5);
    assert_eq!(m.transitions[1].source_state_id, "bound");
    assert_eq!(m.transitions[1].target_state_id, "free");
    assert_eq!(f64::from_bits(m.transitions[1].rate_constant.bits), 0.01);
    assert_eq!(f64::from_bits(m.stimulus.start_time.bits), 1.0);
    assert_eq!(f64::from_bits(m.stimulus.end_time.bits), 2.0);
    assert_eq!(f64::from_bits(m.stimulus.value.bits), 5.0);
    assert_eq!(f64::from_bits(m.parameters.total_time.bits), 10.0);
    assert_eq!(f64::from_bits(m.parameters.time_step.bits), 0.001);
}

#[test]
fn sample_model_is_complete() {
    assert_eq!(sample().validate_completeness(), Ok(()));
}
