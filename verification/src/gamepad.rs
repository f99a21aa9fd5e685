use vstd::prelude::*;

use crate::input::{
    gamepad_axis_slot, gamepad_button_slot, GamepadAxis, GamepadButton, GamepadCapabilities,
    GamepadCapability, GAMEPAD_AXIS_COUNT, GAMEPAD_BUTTON_COUNT,
};

verus! {

/// The button layout of the W3C "standard" gamepad mapping: each entry pairs a
/// browser button index with the engine's button.
pub open spec fn standard_browser_layout() -> Seq<(u32, GamepadButton)> {
    seq![
        (0u32, GamepadButton::South),
        (1u32, GamepadButton::East),
        (2u32, GamepadButton::West),
        (3u32, GamepadButton::North),
        (4u32, GamepadButton::LeftShoulder),
        (5u32, GamepadButton::RightShoulder),
        (6u32, GamepadButton::LeftTrigger),
        (7u32, GamepadButton::RightTrigger),
        (8u32, GamepadButton::Select),
        (9u32, GamepadButton::Start),
        (10u32, GamepadButton::LeftStickPress),
        (11u32, GamepadButton::RightStickPress),
        (12u32, GamepadButton::DPadUp),
        (13u32, GamepadButton::DPadDown),
        (14u32, GamepadButton::DPadLeft),
        (15u32, GamepadButton::DPadRight),
        (16u32, GamepadButton::Guide),
    ]
}

/// The browser button indices of the standard mapping, in index order.
pub fn standard_browser_buttons() -> (buttons: [(u32, GamepadButton); 17])
    ensures
        buttons@ == standard_browser_layout(),
{
    let buttons = [
        (0u32, GamepadButton::South),
        (1u32, GamepadButton::East),
        (2u32, GamepadButton::West),
        (3u32, GamepadButton::North),
        (4u32, GamepadButton::LeftShoulder),
        (5u32, GamepadButton::RightShoulder),
        (6u32, GamepadButton::LeftTrigger),
        (7u32, GamepadButton::RightTrigger),
        (8u32, GamepadButton::Select),
        (9u32, GamepadButton::Start),
        (10u32, GamepadButton::LeftStickPress),
        (11u32, GamepadButton::RightStickPress),
        (12u32, GamepadButton::DPadUp),
        (13u32, GamepadButton::DPadDown),
        (14u32, GamepadButton::DPadLeft),
        (15u32, GamepadButton::DPadRight),
        (16u32, GamepadButton::Guide),
    ];
    assert(buttons@ =~= standard_browser_layout());
    buttons
}

/// The axis of the directional pad that a button moves along.
#[derive(Debug, Clone, Copy, PartialEq, Eq, Hash, Structural)]
pub enum DPadAxis {
    Horizontal,
    Vertical,
}

/// The directional-pad axis of a button, if it is a directional-pad button.
pub fn dpad_axis(button: GamepadButton) -> (axis: Option<DPadAxis>)
    ensures
        axis == match button {
            GamepadButton::DPadLeft | GamepadButton::DPadRight => Some(DPadAxis::Horizontal),
            GamepadButton::DPadUp | GamepadButton::DPadDown => Some(DPadAxis::Vertical),
            _ => None::<DPadAxis>,
        },
{
    match button {
        GamepadButton::DPadLeft | GamepadButton::DPadRight => Some(DPadAxis::Horizontal),
        GamepadButton::DPadUp | GamepadButton::DPadDown => Some(DPadAxis::Vertical),
        _ => None,
    }
}

/// The capability that a present or absent device mapping entry stands for.
pub open spec fn capability_of(available: bool) -> GamepadCapability {
    if available {
        GamepadCapability::Available
    } else {
        GamepadCapability::Unavailable
    }
}

/// Whether a mapped control is available.
pub fn availability(available: bool) -> (capability: GamepadCapability)
    ensures
        capability == capability_of(available),
{
    if available {
        GamepadCapability::Available
    } else {
        GamepadCapability::Unavailable
    }
}

/// The capability of an axis, given which mapped buttons and axes a device has.
/// Trigger axes follow the trigger buttons.
pub open spec fn mapped_axis_capability(axis: GamepadAxis, buttons: Seq<bool>, axes: Seq<bool>) -> GamepadCapability {
    match axis {
        GamepadAxis::LeftStickX => capability_of(axes[0]),
        GamepadAxis::LeftStickY => capability_of(axes[1]),
        GamepadAxis::RightStickX => capability_of(axes[2]),
        GamepadAxis::RightStickY => capability_of(axes[3]),
        GamepadAxis::LeftTrigger => capability_of(buttons[6]),
        GamepadAxis::RightTrigger => capability_of(buttons[7]),
    }
}

/// The capability of a button, given which mapped buttons and axes a device has.
/// A stick's direction buttons follow the stick's axis.
pub open spec fn mapped_button_capability(button: GamepadButton, buttons: Seq<bool>, axes: Seq<bool>) -> GamepadCapability {
    match button {
        GamepadButton::South => capability_of(buttons[0]),
        GamepadButton::East => capability_of(buttons[1]),
        GamepadButton::North => capability_of(buttons[2]),
        GamepadButton::West => capability_of(buttons[3]),
        GamepadButton::LeftShoulder => capability_of(buttons[4]),
        GamepadButton::RightShoulder => capability_of(buttons[5]),
        GamepadButton::LeftTrigger => capability_of(buttons[6]),
        GamepadButton::RightTrigger => capability_of(buttons[7]),
        GamepadButton::Start => capability_of(buttons[8]),
        GamepadButton::Select => capability_of(buttons[9]),
        GamepadButton::Guide => capability_of(buttons[10]),
        GamepadButton::LeftStickPress => capability_of(buttons[11]),
        GamepadButton::RightStickPress => capability_of(buttons[12]),
        GamepadButton::DPadUp => capability_of(buttons[13]),
        GamepadButton::DPadDown => capability_of(buttons[14]),
        GamepadButton::DPadLeft => capability_of(buttons[15]),
        GamepadButton::DPadRight => capability_of(buttons[16]),
        GamepadButton::LeftStickLeft | GamepadButton::LeftStickRight => capability_of(axes[0]),
        GamepadButton::LeftStickDown | GamepadButton::LeftStickUp => capability_of(axes[1]),
        GamepadButton::RightStickLeft | GamepadButton::RightStickRight => capability_of(axes[2]),
        GamepadButton::RightStickDown | GamepadButton::RightStickUp => capability_of(axes[3]),
    }
}

/// Every button, in slot order.
fn buttons_by_slot() -> (order: [GamepadButton; 25])
    ensures
        forall|button: GamepadButton| #[trigger] order@[gamepad_button_slot(button)] == button,
{
    let order = [
        GamepadButton::South,
        GamepadButton::East,
        GamepadButton::North,
        GamepadButton::West,
        GamepadButton::LeftShoulder,
        GamepadButton::RightShoulder,
        GamepadButton::Start,
        GamepadButton::Select,
        GamepadButton::DPadUp,
        GamepadButton::DPadDown,
        GamepadButton::DPadLeft,
        GamepadButton::DPadRight,
        GamepadButton::LeftStickUp,
        GamepadButton::LeftStickDown,
        GamepadButton::LeftStickLeft,
        GamepadButton::LeftStickRight,
        GamepadButton::LeftTrigger,
        GamepadButton::RightTrigger,
        GamepadButton::LeftStickPress,
        GamepadButton::RightStickPress,
        GamepadButton::Guide,
        GamepadButton::RightStickUp,
        GamepadButton::RightStickDown,
        GamepadButton::RightStickLeft,
        GamepadButton::RightStickRight,
    ];
    assert forall|button: GamepadButton| #[trigger] order@[gamepad_button_slot(button)] == button by {
        match button {
            GamepadButton::South => {},
            GamepadButton::East => {},
            GamepadButton::North => {},
            GamepadButton::West => {},
            GamepadButton::LeftShoulder => {},
            GamepadButton::RightShoulder => {},
            GamepadButton::Start => {},
            GamepadButton::Select => {},
            GamepadButton::DPadUp => {},
            GamepadButton::DPadDown => {},
            GamepadButton::DPadLeft => {},
            GamepadButton::DPadRight => {},
            GamepadButton::LeftStickUp => {},
            GamepadButton::LeftStickDown => {},
            GamepadButton::LeftStickLeft => {},
            GamepadButton::LeftStickRight => {},
            GamepadButton::LeftTrigger => {},
            GamepadButton::RightTrigger => {},
            GamepadButton::LeftStickPress => {},
            GamepadButton::RightStickPress => {},
            GamepadButton::Guide => {},
            GamepadButton::RightStickUp => {},
            GamepadButton::RightStickDown => {},
            GamepadButton::RightStickLeft => {},
            GamepadButton::RightStickRight => {},
        }
    }
    order
}

/// Every axis, in slot order.
fn axes_by_slot() -> (order: [GamepadAxis; 6])
    ensures
        forall|axis: GamepadAxis| #[trigger] order@[gamepad_axis_slot(axis)] == axis,
{
    let order = [
        GamepadAxis::LeftStickX,
        GamepadAxis::LeftStickY,
        GamepadAxis::RightStickX,
        GamepadAxis::RightStickY,
        GamepadAxis::LeftTrigger,
        GamepadAxis::RightTrigger,
    ];
    assert forall|axis: GamepadAxis| #[trigger] order@[gamepad_axis_slot(axis)] == axis by {
        match axis {
            GamepadAxis::LeftStickX => {},
            GamepadAxis::LeftStickY => {},
            GamepadAxis::RightStickX => {},
            GamepadAxis::RightStickY => {},
            GamepadAxis::LeftTrigger => {},
            GamepadAxis::RightTrigger => {},
        }
    }
    order
}

/// The capability of one button under a native mapping's presence flags.
fn mapped_button(button: GamepadButton, buttons: &[bool], axes: &[bool]) -> (capability: GamepadCapability)
    requires
        buttons@.len() == 17,
        axes@.len() == 4,
    ensures
        capability == mapped_button_capability(button, buttons@, axes@),
{
    match button {
        GamepadButton::South => availability(buttons[0]),
        GamepadButton::East => availability(buttons[1]),
        GamepadButton::North => availability(buttons[2]),
        GamepadButton::West => availability(buttons[3]),
        GamepadButton::LeftShoulder => availability(buttons[4]),
        GamepadButton::RightShoulder => availability(buttons[5]),
        GamepadButton::Start => availability(buttons[8]),
        GamepadButton::Select => availability(buttons[9]),
        GamepadButton::DPadUp => availability(buttons[13]),
        GamepadButton::DPadDown => availability(buttons[14]),
        GamepadButton::DPadLeft => availability(buttons[15]),
        GamepadButton::DPadRight => availability(buttons[16]),
        GamepadButton::LeftStickUp => availability(axes[1]),
        GamepadButton::LeftStickDown => availability(axes[1]),
        GamepadButton::LeftStickLeft => availability(axes[0]),
        GamepadButton::LeftStickRight => availability(axes[0]),
        GamepadButton::LeftTrigger => availability(buttons[6]),
        GamepadButton::RightTrigger => availability(buttons[7]),
        GamepadButton::LeftStickPress => availability(buttons[11]),
        GamepadButton::RightStickPress => availability(buttons[12]),
        GamepadButton::Guide => availability(buttons[10]),
        GamepadButton::RightStickUp => availability(axes[3]),
        GamepadButton::RightStickDown => availability(axes[3]),
        GamepadButton::RightStickLeft => availability(axes[2]),
        GamepadButton::RightStickRight => availability(axes[2]),
    }
}

/// The capability of one axis under a native mapping's presence flags.
fn mapped_axis(axis: GamepadAxis, buttons: &[bool], axes: &[bool]) -> (capability: GamepadCapability)
    requires
        buttons@.len() == 17,
        axes@.len() == 4,
    ensures
        capability == mapped_axis_capability(axis, buttons@, axes@),
{
    match axis {
        GamepadAxis::LeftStickX => availability(axes[0]),
        GamepadAxis::LeftStickY => availability(axes[1]),
        GamepadAxis::RightStickX => availability(axes[2]),
        GamepadAxis::RightStickY => availability(axes[3]),
        GamepadAxis::LeftTrigger => availability(buttons[6]),
        GamepadAxis::RightTrigger => availability(buttons[7]),
    }
}

/// The capabilities of a gamepad whose native mapping reports which controls the
/// device has: `buttons` flags South, East, North, West, the left and right
/// shoulders, the left and right triggers, Start, Select, Guide, the left and right
/// stick presses, and the directional pad's up, down, left and right; `axes` flags
/// the left stick's x and y and the right stick's x and y. Trigger axes follow the
/// trigger buttons, and a stick's direction buttons follow the stick's axis.
pub fn capabilities_from_mapping(buttons: &[bool], axes: &[bool]) -> (capabilities: GamepadCapabilities)
    requires
        buttons@.len() == 17,
        axes@.len() == 4,
    ensures
        capabilities@.buttons.len() == GAMEPAD_BUTTON_COUNT,
        capabilities@.axes.len() == GAMEPAD_AXIS_COUNT,
        forall|button: GamepadButton|
            #[trigger] capabilities@.buttons[gamepad_button_slot(button)]
                == mapped_button_capability(button, buttons@, axes@),
        forall|axis: GamepadAxis|
            #[trigger] capabilities@.axes[gamepad_axis_slot(axis)]
                == mapped_axis_capability(axis, buttons@, axes@),
{
    let button_order = buttons_by_slot();
    let mut by_slot: Vec<GamepadCapability> = Vec::new();
    for i in 0..25usize
        invariant
            buttons@.len() == 17,
            axes@.len() == 4,
            by_slot@.len() == i,
            forall|button: GamepadButton| #[trigger] button_order@[gamepad_button_slot(button)] == button,
            forall|j: int|
                0 <= j < i ==> by_slot@[j] == mapped_button_capability(button_order@[j], buttons@, axes@),
    {
        by_slot.push(mapped_button(button_order[i], buttons, axes));
    }
    let axis_order = axes_by_slot();
    let mut axis_slots: Vec<GamepadCapability> = Vec::new();
    for i in 0..6usize
        invariant
            buttons@.len() == 17,
            axes@.len() == 4,
            axis_slots@.len() == i,
            forall|axis: GamepadAxis| #[trigger] axis_order@[gamepad_axis_slot(axis)] == axis,
            forall|j: int|
                0 <= j < i ==> axis_slots@[j] == mapped_axis_capability(axis_order@[j], buttons@, axes@),
    {
        axis_slots.push(mapped_axis(axis_order[i], buttons, axes));
    }
    assert forall|button: GamepadButton|
        #[trigger] by_slot@[gamepad_button_slot(button)] == mapped_button_capability(button, buttons@, axes@) by {
        assert(button_order@[gamepad_button_slot(button)] == button);
    }
    assert forall|axis: GamepadAxis|
        #[trigger] axis_slots@[gamepad_axis_slot(axis)] == mapped_axis_capability(axis, buttons@, axes@) by {
        assert(axis_order@[gamepad_axis_slot(axis)] == axis);
    }
    let capabilities = GamepadCapabilities::from_slots(by_slot, axis_slots);
    capabilities
}

} // verus!
