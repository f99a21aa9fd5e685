use gotoo_pixel_engine::{ActionId, ControlBinding, ControlMap, GamepadButton, GamepadId, InputState, Key};

#[test]
fn keyboard_and_gamepad_feed_the_same_action() {
    let left = ActionId::new("test.left");
    let mut map = ControlMap::new();
    map.bind_key(left, Key::Left)
        .bind_gamepad(left, GamepadButton::DPadLeft);
    let mut input = InputState::default();

    input.press_key(Key::Left);
    map.update(&input);
    assert!(map.action(left).pressed());
    assert!(map.action(left).held());

    input.release_key(Key::Left);
    input.set_gamepad_button(GamepadId::new(0), GamepadButton::DPadLeft, true);
    map.update(&input);
    assert!(map.action(left).held());
    assert!(!map.action(left).released());
}

#[test]
fn gamepad_device_binding_ignores_other_gamepads() {
    let left = ActionId::new("test.left");
    let assigned = GamepadId::new(3);
    let other = GamepadId::new(7);
    let mut map = ControlMap::new();
    map.bind_gamepad_device(left, assigned, GamepadButton::DPadLeft);
    let mut input = InputState::default();

    input.set_gamepad_button(other, GamepadButton::DPadLeft, true);
    map.update(&input);
    assert!(!map.action(left).held());

    input.set_gamepad_button(assigned, GamepadButton::DPadLeft, true);
    map.update(&input);
    assert!(map.action(left).pressed());
    assert!(map.action(left).held());
}

#[test]
fn virtual_source_uses_pressed_held_released_transitions() {
    let fire = ActionId::new("test.fire");
    let mut map = ControlMap::new();
    map.set_virtual(fire, true);
    map.update(&InputState::default());
    assert!(map.action(fire).pressed());
    assert!(map.action(fire).held());

    map.update(&InputState::default());
    assert!(!map.action(fire).pressed());
    assert!(map.action(fire).held());

    map.set_virtual(fire, false);
    map.update(&InputState::default());
    assert!(map.action(fire).released());
    assert!(!map.action(fire).held());
}

#[test]
fn held_list_drives_actions_like_input() {
    let left = ActionId::new("test.left");
    let mut map = ControlMap::new();
    map.bind_key(left, Key::Left)
        .bind_gamepad(left, GamepadButton::DPadLeft);

    map.update_held(&[ControlBinding::Key(Key::Left)]);
    assert!(map.action(left).pressed());
    assert!(map.action(left).held());

    map.update_held(&[ControlBinding::Gamepad(GamepadButton::DPadLeft)]);
    assert!(map.action(left).held());
    assert!(!map.action(left).released());
    assert!(!map.action(left).pressed());

    map.update_held(&[]);
    assert!(map.action(left).released());
    assert!(!map.action(left).held());
}

#[test]
fn released_key_releases_its_action() {
    let jump = ActionId::new("test.jump");
    let mut map = ControlMap::new();
    map.bind_key(jump, Key::Space);
    let mut input = InputState::default();
    input.press_key(Key::Space);
    map.update(&input);
    input.advance_frame();
    input.release_key(Key::Space);
    map.update(&input);
    assert!(map.action(jump).released());
    assert!(!map.action(jump).held());
}

#[test]
fn cleared_virtual_sources_release_their_actions() {
    let fire = ActionId::new("test.fire");
    let mut map = ControlMap::new();
    map.set_virtual(fire, true);
    map.update_held(&[]);
    map.clear_virtual();
    map.update_held(&[]);
    assert!(map.action(fire).released());
}

#[test]
fn cleared_bindings_stop_driving_the_action_but_keep_its_state() {
    let jump = ActionId::new("test.jump");
    let mut map = ControlMap::new();
    map.bind_key(jump, Key::Space);
    map.update_held(&[ControlBinding::Key(Key::Space)]);
    assert!(map.action(jump).held());
    map.clear_bindings(jump);
    map.update_held(&[ControlBinding::Key(Key::Space)]);
    assert!(map.action(jump).released());
}

#[test]
fn unknown_action_has_default_state() {
    let map = ControlMap::new();
    let state = map.action(ActionId::new("nothing"));
    assert!(!state.pressed() && !state.held() && !state.released());
}

#[test]
fn binding_twice_keeps_one_binding() {
    let act = ActionId::new("a");
    let mut map = ControlMap::new();
    map.bind_key(act, Key::A).bind_key(act, Key::A);
    map.update_held(&[ControlBinding::Key(Key::A)]);
    assert!(map.action(act).pressed());
}
