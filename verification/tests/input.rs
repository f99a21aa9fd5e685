use gotoo_pixel_engine::{
    gamepad_axis_index, gamepad_button_index, key_index, mouse_button_index, ButtonState,
    GamepadAxis, GamepadButton, GamepadCapabilities, GamepadCapability, GamepadDeviceInfo,
    GamepadId, GamepadMappingSource, Key, MouseButton,
};

#[test]
fn button_transitions_pressed_held_released() {
    let mut state = ButtonState::default();
    state.set_held(true);
    assert!(state.pressed() && state.held() && !state.released());
    state.advance_frame();
    assert!(!state.pressed() && state.held() && !state.released());
    state.set_pressed();
    assert!(!state.pressed() && state.held());
    state.set_held(false);
    assert!(!state.pressed() && !state.held() && state.released());
    state.advance_frame();
    assert!(!state.pressed() && !state.held() && !state.released());
}

#[test]
fn from_transition_matches_edges() {
    assert!(ButtonState::from_transition(false, true).pressed());
    assert!(ButtonState::from_transition(true, false).released());
    let held = ButtonState::from_transition(true, true);
    assert!(held.held() && !held.pressed() && !held.released());
}

#[test]
fn slot_indices_are_distinct() {
    assert_eq!(key_index(Key::Escape), 0);
    assert_eq!(key_index(Key::H), 21);
    assert_ne!(key_index(Key::LeftShift), key_index(Key::RightShift));
    assert_eq!(mouse_button_index(MouseButton::Middle), 2);
    assert_eq!(gamepad_button_index(GamepadButton::RightStickRight), 24);
    assert_eq!(gamepad_axis_index(GamepadAxis::RightTrigger), 5);
}

#[test]
fn capabilities_default_to_unknown_and_can_be_set() {
    let mut capabilities = GamepadCapabilities::unknown();
    assert_eq!(capabilities.button(GamepadButton::South), GamepadCapability::Unknown);
    capabilities.set_button(GamepadButton::South, GamepadCapability::Available);
    capabilities.set_axis(GamepadAxis::LeftStickX, GamepadCapability::Unavailable);
    assert_eq!(capabilities.button(GamepadButton::South), GamepadCapability::Available);
    assert_eq!(capabilities.axis(GamepadAxis::LeftStickX), GamepadCapability::Unavailable);
    assert_eq!(
        GamepadCapabilities::standard().axis(GamepadAxis::RightTrigger),
        GamepadCapability::Available
    );
}

#[test]
fn device_info_defaults() {
    let info = GamepadDeviceInfo::new(GamepadId::new(2), "Pad");
    assert_eq!(info.name, "Pad");
    assert_eq!(info.mapping_source, GamepadMappingSource::Unknown);
    assert_eq!(GamepadDeviceInfo::unknown(GamepadId::new(12)).name, "Gamepad 12");
}
