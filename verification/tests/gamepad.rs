use gotoo_pixel_engine::{
    availability, capabilities_from_mapping, dpad_axis, standard_browser_buttons, DPadAxis, GamepadAxis,
    GamepadButton, GamepadCapability,
};

#[test]
fn standard_browser_button_indices_match_the_w3c_layout() {
    assert_eq!(
        standard_browser_buttons(),
        [
            (0, GamepadButton::South),
            (1, GamepadButton::East),
            (2, GamepadButton::West),
            (3, GamepadButton::North),
            (4, GamepadButton::LeftShoulder),
            (5, GamepadButton::RightShoulder),
            (6, GamepadButton::LeftTrigger),
            (7, GamepadButton::RightTrigger),
            (8, GamepadButton::Select),
            (9, GamepadButton::Start),
            (10, GamepadButton::LeftStickPress),
            (11, GamepadButton::RightStickPress),
            (12, GamepadButton::DPadUp),
            (13, GamepadButton::DPadDown),
            (14, GamepadButton::DPadLeft),
            (15, GamepadButton::DPadRight),
            (16, GamepadButton::Guide),
        ]
    );
}

#[test]
fn dpad_buttons_belong_to_their_axis() {
    assert_eq!(dpad_axis(GamepadButton::DPadLeft), Some(DPadAxis::Horizontal));
    assert_eq!(dpad_axis(GamepadButton::DPadRight), Some(DPadAxis::Horizontal));
    assert_eq!(dpad_axis(GamepadButton::DPadUp), Some(DPadAxis::Vertical));
    assert_eq!(dpad_axis(GamepadButton::DPadDown), Some(DPadAxis::Vertical));
    assert_eq!(dpad_axis(GamepadButton::South), None);
    assert_eq!(dpad_axis(GamepadButton::LeftStickLeft), None);
}

#[test]
fn availability_follows_the_mapping_flag() {
    assert_eq!(availability(true), GamepadCapability::Available);
    assert_eq!(availability(false), GamepadCapability::Unavailable);
}

#[test]
fn mapped_capabilities_derive_triggers_and_stick_directions() {
    let mut buttons = [true; 17];
    buttons[6] = false;
    buttons[10] = false;
    let axes = [true, false, true, true];
    let capabilities = capabilities_from_mapping(&buttons, &axes);

    assert_eq!(capabilities.button(GamepadButton::South), GamepadCapability::Available);
    assert_eq!(capabilities.button(GamepadButton::Guide), GamepadCapability::Unavailable);
    assert_eq!(capabilities.button(GamepadButton::LeftTrigger), GamepadCapability::Unavailable);
    assert_eq!(capabilities.axis(GamepadAxis::LeftTrigger), GamepadCapability::Unavailable);
    assert_eq!(capabilities.axis(GamepadAxis::RightTrigger), GamepadCapability::Available);
    assert_eq!(capabilities.button(GamepadButton::LeftStickLeft), GamepadCapability::Available);
    assert_eq!(capabilities.button(GamepadButton::LeftStickUp), GamepadCapability::Unavailable);
    assert_eq!(capabilities.button(GamepadButton::LeftStickDown), GamepadCapability::Unavailable);
    assert_eq!(capabilities.axis(GamepadAxis::LeftStickY), GamepadCapability::Unavailable);
    assert_eq!(capabilities.button(GamepadButton::RightStickRight), GamepadCapability::Available);
}
