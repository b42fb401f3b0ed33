use rust_exercises::traffic_light::{
    get_next_color, get_next_state, TrafficLightColor, TrafficLightState,
};

#[test]
fn next_color_cycles() {
    let colors = [
        (TrafficLightColor::Green, TrafficLightColor::Yellow),
        (TrafficLightColor::Yellow, TrafficLightColor::Red),
        (TrafficLightColor::Red, TrafficLightColor::Green),
    ];
    for (start_color, next_color) in colors {
        let state = TrafficLightState {
            current_color: start_color,
            last_transition_time_ms: 0,
        };
        assert_eq!(get_next_color(state), next_color);
    }
}

#[test]
fn test_get_next_state_no_pedestrians() {
    let mut state = TrafficLightState {
        current_color: TrafficLightColor::Green,
        last_transition_time_ms: 0,
    };

    assert_eq!(get_next_state(state, 0, false), TrafficLightColor::Green);
    assert_eq!(get_next_state(state, 19000, false), TrafficLightColor::Green);
    assert_eq!(get_next_state(state, 21000, false), TrafficLightColor::Green);
    assert_eq!(get_next_state(state, 29000, false), TrafficLightColor::Green);
    assert_eq!(get_next_state(state, 31000, false), TrafficLightColor::Yellow);

    state.current_color = TrafficLightColor::Yellow;
    state.last_transition_time_ms = 30000;

    assert_eq!(get_next_state(state, 30000, false), TrafficLightColor::Yellow);
    assert_eq!(get_next_state(state, 34000, false), TrafficLightColor::Yellow);
    assert_eq!(get_next_state(state, 36000, false), TrafficLightColor::Red);

    state.current_color = TrafficLightColor::Red;
    state.last_transition_time_ms = 35000;

    assert_eq!(get_next_state(state, 35000, false), TrafficLightColor::Red);
    assert_eq!(get_next_state(state, 59000, false), TrafficLightColor::Red);
    assert_eq!(get_next_state(state, 61000, false), TrafficLightColor::Green);
}

#[test]
fn test_get_next_state_pedestrians() {
    let mut state = TrafficLightState {
        current_color: TrafficLightColor::Green,
        last_transition_time_ms: 0,
    };

    assert_eq!(get_next_state(state, 0, true), TrafficLightColor::Green);
    assert_eq!(get_next_state(state, 19000, true), TrafficLightColor::Green);
    assert_eq!(get_next_state(state, 21000, true), TrafficLightColor::Yellow);

    state.current_color = TrafficLightColor::Yellow;
    state.last_transition_time_ms = 20000;

    assert_eq!(get_next_state(state, 20000, true), TrafficLightColor::Yellow);
    assert_eq!(get_next_state(state, 24000, true), TrafficLightColor::Yellow);
    assert_eq!(get_next_state(state, 26000, true), TrafficLightColor::Red);

    state.current_color = TrafficLightColor::Red;
    state.last_transition_time_ms = 25000;

    assert_eq!(get_next_state(state, 25000, true), TrafficLightColor::Red);
    assert_eq!(get_next_state(state, 49000, true), TrafficLightColor::Red);
    assert_eq!(get_next_state(state, 51000, true), TrafficLightColor::Green);
}

#[test]
fn transitions_happen_exactly_at_the_required_time() {
    let green = TrafficLightState {
        current_color: TrafficLightColor::Green,
        last_transition_time_ms: 1000,
    };
    assert_eq!(get_next_state(green, 30999, false), TrafficLightColor::Green);
    assert_eq!(get_next_state(green, 31000, false), TrafficLightColor::Yellow);
    assert_eq!(get_next_state(green, 21000, true), TrafficLightColor::Yellow);
    let red = TrafficLightState {
        current_color: TrafficLightColor::Red,
        last_transition_time_ms: 0,
    };
    assert_eq!(get_next_state(red, 24999, true), TrafficLightColor::Red);
    assert_eq!(get_next_state(red, 25000, true), TrafficLightColor::Green);
}
