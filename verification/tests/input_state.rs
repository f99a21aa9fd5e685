use gotoo_pixel_engine::{
    GamepadButton, GamepadCapability, GamepadConnectionEvent, GamepadDeviceInfo, GamepadId, GamepadAxis, InputState,
    Key, MouseButton, Touch, TouchPhase,
};

#[test]
fn key_transitions_pressed_held_released() {
    let mut input = InputState::default();

    input.press_key(Key::Space);
    let state = input.key(Key::Space);
    assert!(state.pressed());
    assert!(state.held());
    assert!(!state.released());

    input.advance_frame();
    let state = input.key(Key::Space);
    assert!(!state.pressed());
    assert!(state.held());
    assert!(!state.released());

    input.release_key(Key::Space);
    let state = input.key(Key::Space);
    assert!(!state.pressed());
    assert!(!state.held());
    assert!(state.released());

    input.advance_frame();
    let state = input.key(Key::Space);
    assert!(!state.pressed());
    assert!(!state.held());
    assert!(!state.released());
}

#[test]
fn held_key_is_not_pressed_again_on_repeat_press() {
    let mut input = InputState::default();

    input.press_key(Key::A);
    input.advance_frame();
    input.press_key(Key::A);

    let state = input.key(Key::A);
    assert!(!state.pressed());
    assert!(state.held());
    assert!(!state.released());
}

#[test]
fn modifiers_and_gameplay_keys_use_independent_key_slots() {
    let mut input = InputState::default();

    input.press_key(Key::LeftShift);
    input.press_key(Key::RightShift);
    input.press_key(Key::LeftControl);
    input.press_key(Key::RightControl);

    assert!(input.key(Key::LeftShift).held());
    assert!(input.key(Key::RightShift).held());
    assert!(input.key(Key::LeftControl).held());
    assert!(input.key(Key::RightControl).held());
    assert!(!input.key(Key::X).held());
    assert!(!input.key(Key::C).held());

    input.press_key(Key::X);
    input.press_key(Key::C);
    assert!(input.key(Key::LeftShift).held());
    assert!(input.key(Key::RightShift).held());
    assert!(input.key(Key::LeftControl).held());
    assert!(input.key(Key::RightControl).held());
    assert!(input.key(Key::X).pressed());
    assert!(input.key(Key::C).pressed());
}

#[test]
fn tool_shortcut_keys_use_independent_key_slots() {
    let mut input = InputState::default();

    input.press_key(Key::L);
    input.press_key(Key::M);
    input.press_key(Key::H);

    assert!(input.key(Key::L).pressed());
    assert!(input.key(Key::M).pressed());
    assert!(input.key(Key::H).pressed());
    assert!(!input.key(Key::F).held());
    assert!(!input.key(Key::R).held());
}

#[test]
fn mouse_button_uses_same_transition_model() {
    let mut input = InputState::default();

    input.press_mouse_button(MouseButton::Left);
    assert!(input.mouse_button(MouseButton::Left).pressed());
    assert!(input.mouse_button(MouseButton::Left).held());

    input.advance_frame();
    input.release_mouse_button(MouseButton::Left);
    assert!(input.mouse_button(MouseButton::Left).released());
    assert!(!input.mouse_button(MouseButton::Left).held());
}

#[test]
fn mouse_position_is_explicitly_optional() {
    let mut input = InputState::default();
    assert_eq!(input.mouse_position(), None);

    input.set_mouse_position(Some((12, 34)));
    assert_eq!(input.mouse_position(), Some((12, 34)));

    input.set_mouse_position(None);
    assert_eq!(input.mouse_position(), None);
}

#[test]
fn touch_events_preserve_phase_order_and_ids() {
    let mut input = InputState::default();

    input.push_touch(Touch {
        id: 7,
        phase: TouchPhase::Started,
        position: Some((10, 20)),
    });
    input.push_touch(Touch {
        id: 7,
        phase: TouchPhase::Moved,
        position: Some((11, 21)),
    });

    assert_eq!(input.touches().len(), 2);
    assert_eq!(input.touches()[0].phase, TouchPhase::Started);
    assert_eq!(input.touches()[1].phase, TouchPhase::Moved);

    input.advance_frame();
    assert!(input.touches().is_empty());
}

#[test]
fn explicit_connection_is_visible_before_any_button_event() {
    let mut input = InputState::default();
    let id = GamepadId::new(7);

    input.connect_gamepad(id, "Test Pad");

    assert!(input.gamepad_connected(id));
    assert_eq!(
        input.gamepad_info(id).map(|info| info.name.as_str()),
        Some("Test Pad")
    );
    assert_eq!(
        input.gamepad_connection_events(),
        &[GamepadConnectionEvent::Connected(
            GamepadDeviceInfo::new(id, "Test Pad")
        )]
    );
}

#[test]
fn gamepad_buttons_follow_same_transition_model() {
    let mut input = InputState::default();
    let id = GamepadId::new(2);

    input.set_gamepad_button(id, GamepadButton::South, true);
    assert!(input.gamepad_button(id, GamepadButton::South).pressed());
    assert!(input.gamepad_button(id, GamepadButton::South).held());

    input.advance_frame();
    input.set_gamepad_button(id, GamepadButton::South, false);
    assert!(input.gamepad_button(id, GamepadButton::South).released());
    assert!(!input.gamepad_button(id, GamepadButton::South).held());
}

#[test]
fn any_gamepad_combines_connected_devices() {
    let mut input = InputState::default();
    input.set_gamepad_button(GamepadId::new(1), GamepadButton::DPadLeft, true);
    input.set_gamepad_button(GamepadId::new(2), GamepadButton::South, true);

    assert!(input.gamepad_button_any(GamepadButton::DPadLeft).held());
    assert!(input.gamepad_button_any(GamepadButton::South).held());
}

#[test]
fn disconnect_removes_gamepad_state_and_emits_lifecycle_event() {
    let mut input = InputState::default();
    let id = GamepadId::new(3);
    input.connect_gamepad(id, "Disposable Pad");
    input.advance_frame();

    input.disconnect_gamepad(id);

    assert!(!input.gamepad_button(id, GamepadButton::South).held());
    assert!(input.gamepad_ids().iter().all(|gamepad_id| *gamepad_id != id));
    assert_eq!(
        input.gamepad_connection_events(),
        &[GamepadConnectionEvent::Disconnected(
            GamepadDeviceInfo::new(id, "Disposable Pad")
        )]
    );
}

#[test]
fn unknown_mapping_does_not_fabricate_capabilities() {
    let mut input = InputState::default();
    let id = GamepadId::new(8);
    input.connect_gamepad(id, "Unknown Pad");

    assert_eq!(
        input.gamepad_button_capability(id, GamepadButton::Guide),
        GamepadCapability::Unknown
    );
    assert_eq!(
        input.gamepad_axis_capability(id, GamepadAxis::LeftTrigger),
        GamepadCapability::Unknown
    );
}

#[test]
fn device_metadata_is_scoped_by_gamepad_id() {
    let mut input = InputState::default();
    let first = GamepadId::new(1);
    let second = GamepadId::new(2);
    let mut first_info = GamepadDeviceInfo::new(first, "First");
    first_info.vendor_id = Some(0x1111);
    let mut second_info = GamepadDeviceInfo::new(second, "Second");
    second_info.vendor_id = Some(0x2222);

    input.connect_gamepad_info(first_info);
    input.connect_gamepad_info(second_info);

    assert_eq!(
        input.gamepad_info(first).and_then(|info| info.vendor_id),
        Some(0x1111)
    );
    assert_eq!(
        input.gamepad_info(second).and_then(|info| info.vendor_id),
        Some(0x2222)
    );
}

#[test]
fn lifecycle_events_are_frame_scoped() {
    let mut input = InputState::default();
    input.connect_gamepad(GamepadId::new(9), "Transient Pad");
    assert!(!input.gamepad_connection_events().is_empty());

    input.advance_frame();

    assert!(input.gamepad_connection_events().is_empty());
}

#[test]
fn focus_reset_keeps_gamepad_state() {
    let mut input = InputState::default();
    let id = GamepadId::new(4);
    input.press_key(Key::Left);
    input.set_gamepad_button(id, GamepadButton::DPadLeft, true);

    input.reset_window_devices();

    assert!(!input.key(Key::Left).held());
    assert!(input.gamepad_button(id, GamepadButton::DPadLeft).held());
}


#[test]
fn reconnecting_a_known_gamepad_keeps_its_buttons_and_emits_nothing() {
    let mut input = InputState::default();
    let id = GamepadId::new(5);
    input.set_gamepad_button(id, GamepadButton::East, true);
    assert_eq!(input.gamepad_info(id).map(|info| info.name.as_str()), Some("Gamepad 5"));
    input.advance_frame();
    input.connect_gamepad(id, "Renamed Pad");
    assert!(input.gamepad_connection_events().is_empty());
    assert!(input.gamepad_button(id, GamepadButton::East).held());
    assert_eq!(input.gamepad_info(id).map(|info| info.name.as_str()), Some("Renamed Pad"));
    input.disconnect_gamepad(GamepadId::new(42));
    assert!(input.gamepad_connection_events().is_empty());
    assert_eq!(input.gamepad_ids(), vec![id]);
    assert_eq!(input.gamepad_axis_capability(GamepadId::new(42), GamepadAxis::LeftStickX), GamepadCapability::Unknown);
}
