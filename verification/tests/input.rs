use concinnity_engine::input::gamepad::{bit, GamepadButton, PadAxis, PadEvent, PadState, PadUpdate};
use concinnity_engine::input::nav::{dpad_direction, NavDirection};

fn press(pad: u32, button: GamepadButton) -> PadEvent {
    PadEvent::Button { pad, button, pressed: true }
}

fn release(pad: u32, button: GamepadButton) -> PadEvent {
    PadEvent::Button { pad, button, pressed: false }
}

#[test]
fn press_sets_held_and_a_one_frame_edge() {
    let mut state = PadState::default();
    state.ingest(PadEvent::Connected { pad: 0 });
    state.ingest(press(0, GamepadButton::South));

    let snap = state.snapshot();
    assert!(snap.held(GamepadButton::South));
    assert!(snap.pressed(GamepadButton::South));
    assert_eq!(snap.first_pressed(), Some(GamepadButton::South));

    let snap = state.snapshot();
    assert!(snap.held(GamepadButton::South));
    assert!(!snap.pressed(GamepadButton::South));
    assert_eq!(snap.first_pressed(), None);

    state.ingest(release(0, GamepadButton::South));
    assert!(!state.snapshot().held(GamepadButton::South));
}

#[test]
fn press_between_snapshots_is_not_lost() {
    let mut state = PadState::default();
    state.ingest(PadEvent::Connected { pad: 0 });
    state.ingest(press(0, GamepadButton::West));
    state.ingest(release(0, GamepadButton::West));
    let snap = state.snapshot();
    assert!(snap.pressed(GamepadButton::West));
    assert!(!snap.held(GamepadButton::West));
}

#[test]
fn most_recently_used_pad_wins_and_state_resets_on_switch() {
    let mut state = PadState::default();
    state.ingest(PadEvent::Connected { pad: 0 });
    state.ingest(PadEvent::Connected { pad: 1 });
    state.ingest(press(0, GamepadButton::South));
    let update = state.ingest(press(1, GamepadButton::North));
    assert_eq!(update, PadUpdate { reset: true, store: None });
    let snap = state.snapshot();
    assert!(snap.held(GamepadButton::North));
    assert!(!snap.held(GamepadButton::South));
}

#[test]
fn inactive_pad_drift_and_releases_are_ignored() {
    let mut state = PadState::default();
    state.ingest(PadEvent::Connected { pad: 0 });
    let stored = state.ingest(PadEvent::Axis { pad: 0, axis: PadAxis::LeftY, deliberate: true });
    assert_eq!(stored, PadUpdate { reset: false, store: Some(PadAxis::LeftY) });
    let drift = state.ingest(PadEvent::Axis { pad: 1, axis: PadAxis::LeftX, deliberate: false });
    assert_eq!(drift, PadUpdate { reset: false, store: None });
    assert_eq!(state.active, Some(0));
    let stray = state.ingest(release(1, GamepadButton::South));
    assert_eq!(stray, PadUpdate { reset: false, store: None });
    assert_eq!(state.active, Some(0));
    let switch = state.ingest(PadEvent::Axis { pad: 1, axis: PadAxis::LeftX, deliberate: true });
    assert_eq!(switch, PadUpdate { reset: true, store: Some(PadAxis::LeftX) });
    assert_eq!(state.active, Some(1));
}

#[test]
fn disconnect_of_the_active_pad_zeroes_everything() {
    let mut state = PadState::default();
    state.ingest(PadEvent::Connected { pad: 0 });
    state.ingest(press(0, GamepadButton::South));
    let update = state.ingest(PadEvent::Disconnected { pad: 0 });
    assert_eq!(update, PadUpdate { reset: true, store: None });
    assert!(!state.snapshot().held(GamepadButton::South));
    assert_eq!(state, PadState::new());

    state.ingest(PadEvent::Connected { pad: 1 });
    state.ingest(press(1, GamepadButton::East));
    state.ingest(PadEvent::Disconnected { pad: 7 });
    assert!(state.snapshot().held(GamepadButton::East));
}

#[test]
fn first_pressed_takes_declaration_order() {
    let mut state = PadState::default();
    state.ingest(PadEvent::Connected { pad: 0 });
    state.ingest(press(0, GamepadButton::Start));
    state.ingest(press(0, GamepadButton::South));
    assert_eq!(state.snapshot().first_pressed(), Some(GamepadButton::South));
}

#[test]
fn each_button_owns_its_own_bit() {
    assert_eq!(bit(GamepadButton::South), 1);
    assert_eq!(bit(GamepadButton::Select), 1 << 15);
    for i in 0..16 {
        assert_eq!(GamepadButton::from_index(i).index(), i);
        assert_eq!(bit(GamepadButton::from_index(i)), 1 << i);
    }
}

#[test]
fn dpad_wins_in_up_down_left_right_order() {
    assert_eq!(dpad_direction([false; 4]), None);
    assert_eq!(dpad_direction([false, false, false, true]), Some(NavDirection::Right));
    assert_eq!(dpad_direction([false, true, true, true]), Some(NavDirection::Down));
    assert_eq!(dpad_direction([true, true, false, false]), Some(NavDirection::Up));
    assert_eq!(dpad_direction([false, false, true, false]), Some(NavDirection::Left));
}
