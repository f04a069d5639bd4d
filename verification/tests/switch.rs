use bloop::messages::{Action, Gesture, SwitchMapping};
use bloop::switch::{input_pins, SwitchState, HOLD_DURATION_MILLIS};

fn mappings() -> Vec<SwitchMapping> {
    vec![
        SwitchMapping { pin: 17, gesture: Gesture::GESTURE_PRESS, action: Action::ACTION_TOGGLE_PLAY },
        SwitchMapping { pin: 17, gesture: Gesture::GESTURE_HOLD, action: Action::ACTION_TOGGLE_LOOP },
        SwitchMapping { pin: 27, gesture: Gesture::GESTURE_RELEASE, action: Action::ACTION_NEXT_SONG },
        SwitchMapping { pin: 27, gesture: Gesture::GESTURE_HOLD, action: Action::ACTION_PREVIOUS_SONG },
        SwitchMapping { pin: 300, gesture: Gesture::GESTURE_PRESS, action: Action::ACTION_NEXT_SECTION },
    ]
}

#[test]
fn a_press_fires_the_press_mapping() {
    let mut state = SwitchState::new();
    assert_eq!(state.on_press(17, 1_000, &mappings()), Some(Action::ACTION_TOGGLE_PLAY));
    assert_eq!(state.on_press(27, 1_000, &mappings()), None);
}

#[test]
fn a_short_release_fires_the_release_mapping() {
    let mut state = SwitchState::new();
    state.on_press(27, 1_000, &mappings());
    assert_eq!(state.on_release(27, 1_000 + HOLD_DURATION_MILLIS, &mappings()), Some(Action::ACTION_NEXT_SONG));
}

#[test]
fn a_long_release_fires_nothing() {
    let mut state = SwitchState::new();
    state.on_press(27, 1_000, &mappings());
    assert_eq!(state.on_release(27, 1_000 + HOLD_DURATION_MILLIS + 1, &mappings()), None);
}

#[test]
fn a_release_without_a_press_fires_nothing() {
    let mut state = SwitchState::new();
    assert_eq!(state.on_release(27, 5_000, &mappings()), None);
}

#[test]
fn a_hold_fires_once_after_the_hold_duration() {
    let mut state = SwitchState::new();
    state.on_press(17, 1_000, &mappings());
    state.on_press(27, 1_100, &mappings());
    assert!(state.on_tick(1_300, &mappings()).is_empty());
    assert_eq!(state.on_tick(1_301, &mappings()), vec![Action::ACTION_TOGGLE_LOOP]);
    assert_eq!(state.on_tick(1_401, &mappings()), vec![Action::ACTION_PREVIOUS_SONG]);
    assert!(state.on_tick(5_000, &mappings()).is_empty());
    assert_eq!(state.on_release(17, 5_000, &mappings()), None);
}

#[test]
fn pins_are_watched_once_and_only_when_they_fit() {
    assert_eq!(input_pins(&mappings()), vec![17, 27]);
    assert!(input_pins(&[]).is_empty());
}
