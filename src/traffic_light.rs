//! Transitions of a traffic light, with a shorter green phase while a
//! pedestrian is waiting.
use vstd::prelude::*;

verus! {

#[derive(Debug, PartialEq, Eq, Structural, Copy, Clone)]
pub enum TrafficLightColor {
    Red,
    Yellow,
    Green,
}

#[derive(Debug, Copy, Clone)]
pub struct TrafficLightState {
    pub current_color: TrafficLightColor,
    pub last_transition_time_ms: u32,
}

/// How long the light stays red, in milliseconds.
pub const RED_DURATION: u32 = 25000;

/// How long the light stays yellow, in milliseconds.
pub const YELLOW_DURATION: u32 = 5000;

/// How long the light stays green, in milliseconds.
pub const GREEN_DURATION: u32 = 30000;

/// How long the light stays green while a pedestrian waits, in milliseconds.
pub const PEDESTRIAN_GREEN_DURATION: u32 = 20000;

/// The color that follows `c`: red, then green, then yellow, then red again.
pub open spec fn spec_next_color(c: TrafficLightColor) -> TrafficLightColor {
    match c {
        TrafficLightColor::Red => TrafficLightColor::Green,
        TrafficLightColor::Yellow => TrafficLightColor::Red,
        TrafficLightColor::Green => TrafficLightColor::Yellow,
    }
}

/// How long color `c` must be shown before the light may change.
pub open spec fn spec_required_time(c: TrafficLightColor, pedestrian_walk_request: bool) -> u32 {
    match c {
        TrafficLightColor::Red => RED_DURATION,
        TrafficLightColor::Yellow => YELLOW_DURATION,
        TrafficLightColor::Green => if pedestrian_walk_request {
            PEDESTRIAN_GREEN_DURATION
        } else {
            GREEN_DURATION
        },
    }
}

/// The color that follows the current one of `state`.
pub fn get_next_color(state: TrafficLightState) -> (r: TrafficLightColor)
    ensures
        r == spec_next_color(state.current_color),
{
    match state.current_color {
        TrafficLightColor::Red => TrafficLightColor::Green,
        TrafficLightColor::Yellow => TrafficLightColor::Red,
        TrafficLightColor::Green => TrafficLightColor::Yellow,
    }
}

/// The color to show at `current_time_ms`: the next one once the current
/// color has been shown for its required time, else the current one.
pub fn get_next_state(
    state: TrafficLightState,
    current_time_ms: u32,
    pedestrian_walk_request: bool,
) -> (r: TrafficLightColor)
    requires
        state.last_transition_time_ms <= current_time_ms,
    ensures
        r == if current_time_ms - state.last_transition_time_ms >= spec_required_time(
            state.current_color,
            pedestrian_walk_request,
        ) {
            spec_next_color(state.current_color)
        } else {
            state.current_color
        },
{
    let time_elapsed = current_time_ms - state.last_transition_time_ms;
    let (required_time, next_color) = match state.current_color {
        TrafficLightColor::Red => (RED_DURATION, TrafficLightColor::Green),
        TrafficLightColor::Yellow => (YELLOW_DURATION, TrafficLightColor::Red),
        TrafficLightColor::Green => {
            let duration = if pedestrian_walk_request {
                PEDESTRIAN_GREEN_DURATION
            } else {
                GREEN_DURATION
            };
            (duration, TrafficLightColor::Yellow)
        },
    };
    if time_elapsed >= required_time {
        next_color
    } else {
        state.current_color
    }
}

} // verus!
