use vstd::prelude::*;

use crate::decimal::{decimal, decimal_string};

verus! {

/// Number of keyboard keys the engine tracks.
pub const KEY_COUNT: usize = 22;

/// Number of mouse buttons the engine tracks.
pub const MOUSE_BUTTON_COUNT: usize = 3;

/// Number of gamepad buttons the engine tracks.
pub const GAMEPAD_BUTTON_COUNT: usize = 25;

/// Number of gamepad axes the engine tracks.
pub const GAMEPAD_AXIS_COUNT: usize = 6;

/// A keyboard key the engine tracks.
#[derive(Debug, Clone, Copy, PartialEq, Eq, Hash, Structural)]
pub enum Key {
    Escape,
    Space,
    Up,
    Down,
    Left,
    Right,
    A,
    D,
    E,
    F,
    R,
    S,
    W,
    X,
    LeftShift,
    RightShift,
    LeftControl,
    RightControl,
    C,
    L,
    M,
    H,
}

/// A mouse button the engine tracks.
#[derive(Debug, Clone, Copy, PartialEq, Eq, Hash, Structural)]
pub enum MouseButton {
    Left,
    Right,
    Middle,
}

/// A gamepad button in the standard layout.
#[derive(Debug, Clone, Copy, PartialEq, Eq, Hash, Structural)]
pub enum GamepadButton {
    South,
    East,
    North,
    West,
    LeftShoulder,
    RightShoulder,
    Start,
    Select,
    DPadUp,
    DPadDown,
    DPadLeft,
    DPadRight,
    LeftStickUp,
    LeftStickDown,
    LeftStickLeft,
    LeftStickRight,
    LeftTrigger,
    RightTrigger,
    LeftStickPress,
    RightStickPress,
    Guide,
    RightStickUp,
    RightStickDown,
    RightStickLeft,
    RightStickRight,
}

/// A gamepad axis in the standard layout.
#[derive(Debug, Clone, Copy, PartialEq, Eq, Hash, Structural)]
pub enum GamepadAxis {
    LeftStickX,
    LeftStickY,
    RightStickX,
    RightStickY,
    LeftTrigger,
    RightTrigger,
}

pub open spec fn key_slot(key: Key) -> int {
    match key {
        Key::Escape => 0,
        Key::Space => 1,
        Key::Up => 2,
        Key::Down => 3,
        Key::Left => 4,
        Key::Right => 5,
        Key::A => 6,
        Key::D => 7,
        Key::E => 8,
        Key::F => 9,
        Key::R => 10,
        Key::S => 11,
        Key::W => 12,
        Key::X => 13,
        Key::LeftShift => 14,
        Key::C => 15,
        Key::RightShift => 16,
        Key::LeftControl => 17,
        Key::RightControl => 18,
        Key::L => 19,
        Key::M => 20,
        Key::H => 21,
    }
}

pub fn key_index(key: Key) -> (index: usize)
    ensures
        index == key_slot(key),
        index < 22,
{
    match key {
        Key::Escape => 0,
        Key::Space => 1,
        Key::Up => 2,
        Key::Down => 3,
        Key::Left => 4,
        Key::Right => 5,
        Key::A => 6,
        Key::D => 7,
        Key::E => 8,
        Key::F => 9,
        Key::R => 10,
        Key::S => 11,
        Key::W => 12,
        Key::X => 13,
        Key::LeftShift => 14,
        Key::C => 15,
        Key::RightShift => 16,
        Key::LeftControl => 17,
        Key::RightControl => 18,
        Key::L => 19,
        Key::M => 20,
        Key::H => 21,
    }
}

pub open spec fn mouse_button_slot(button: MouseButton) -> int {
    match button {
        MouseButton::Left => 0,
        MouseButton::Right => 1,
        MouseButton::Middle => 2,
    }
}

pub fn mouse_button_index(button: MouseButton) -> (index: usize)
    ensures
        index == mouse_button_slot(button),
        index < 3,
{
    match button {
        MouseButton::Left => 0,
        MouseButton::Right => 1,
        MouseButton::Middle => 2,
    }
}

pub open spec fn gamepad_button_slot(button: GamepadButton) -> int {
    match button {
        GamepadButton::South => 0,
        GamepadButton::East => 1,
        GamepadButton::North => 2,
        GamepadButton::West => 3,
        GamepadButton::LeftShoulder => 4,
        GamepadButton::RightShoulder => 5,
        GamepadButton::Start => 6,
        GamepadButton::Select => 7,
        GamepadButton::DPadUp => 8,
        GamepadButton::DPadDown => 9,
        GamepadButton::DPadLeft => 10,
        GamepadButton::DPadRight => 11,
        GamepadButton::LeftStickUp => 12,
        GamepadButton::LeftStickDown => 13,
        GamepadButton::LeftStickLeft => 14,
        GamepadButton::LeftStickRight => 15,
        GamepadButton::LeftTrigger => 16,
        GamepadButton::RightTrigger => 17,
        GamepadButton::LeftStickPress => 18,
        GamepadButton::RightStickPress => 19,
        GamepadButton::Guide => 20,
        GamepadButton::RightStickUp => 21,
        GamepadButton::RightStickDown => 22,
        GamepadButton::RightStickLeft => 23,
        GamepadButton::RightStickRight => 24,
    }
}

pub fn gamepad_button_index(button: GamepadButton) -> (index: usize)
    ensures
        index == gamepad_button_slot(button),
        index < 25,
{
    match button {
        GamepadButton::South => 0,
        GamepadButton::East => 1,
        GamepadButton::North => 2,
        GamepadButton::West => 3,
        GamepadButton::LeftShoulder => 4,
        GamepadButton::RightShoulder => 5,
        GamepadButton::Start => 6,
        GamepadButton::Select => 7,
        GamepadButton::DPadUp => 8,
        GamepadButton::DPadDown => 9,
        GamepadButton::DPadLeft => 10,
        GamepadButton::DPadRight => 11,
        GamepadButton::LeftStickUp => 12,
        GamepadButton::LeftStickDown => 13,
        GamepadButton::LeftStickLeft => 14,
        GamepadButton::LeftStickRight => 15,
        GamepadButton::LeftTrigger => 16,
        GamepadButton::RightTrigger => 17,
        GamepadButton::LeftStickPress => 18,
        GamepadButton::RightStickPress => 19,
        GamepadButton::Guide => 20,
        GamepadButton::RightStickUp => 21,
        GamepadButton::RightStickDown => 22,
        GamepadButton::RightStickLeft => 23,
        GamepadButton::RightStickRight => 24,
    }
}

pub open spec fn gamepad_axis_slot(axis: GamepadAxis) -> int {
    match axis {
        GamepadAxis::LeftStickX => 0,
        GamepadAxis::LeftStickY => 1,
        GamepadAxis::RightStickX => 2,
        GamepadAxis::RightStickY => 3,
        GamepadAxis::LeftTrigger => 4,
        GamepadAxis::RightTrigger => 5,
    }
}

pub fn gamepad_axis_index(axis: GamepadAxis) -> (index: usize)
    ensures
        index == gamepad_axis_slot(axis),
        index < 6,
{
    match axis {
        GamepadAxis::LeftStickX => 0,
        GamepadAxis::LeftStickY => 1,
        GamepadAxis::RightStickX => 2,
        GamepadAxis::RightStickY => 3,
        GamepadAxis::LeftTrigger => 4,
        GamepadAxis::RightTrigger => 5,
    }
}

/// Identity of one connected gamepad.
#[derive(Debug, Clone, Copy, PartialEq, Eq, Hash, Structural)]
pub struct GamepadId(usize);

impl View for GamepadId {
    type V = usize;

    closed spec fn view(&self) -> usize {
        self.0
    }
}

impl GamepadId {
    pub fn new(id: usize) -> (gamepad: Self)
        ensures
            gamepad@ == id,
    {
        GamepadId(id)
    }

    pub fn as_usize(self) -> (id: usize)
        ensures
            id == self@,
    {
        self.0
    }
}

/// Where a gamepad's button and axis mapping comes from.
#[derive(Debug, Clone, Copy, PartialEq, Eq, Structural)]
pub enum GamepadMappingSource {
    SdlMappings,
    Driver,
    BrowserStandard,
    Unknown,
}

impl Default for GamepadMappingSource {
    fn default() -> (source: Self)
        ensures
            source == GamepadMappingSource::Unknown,
    {
        GamepadMappingSource::Unknown
    }
}

/// Whether a gamepad has one button or axis.
#[derive(Debug, Clone, Copy, PartialEq, Eq, Structural)]
pub enum GamepadCapability {
    Available,
    Unavailable,
    Unknown,
}

impl Default for GamepadCapability {
    fn default() -> (capability: Self)
        ensures
            capability == GamepadCapability::Unknown,
    {
        GamepadCapability::Unknown
    }
}

/// Which buttons and axes a gamepad has.
#[derive(Debug, PartialEq, Eq)]
pub struct GamepadCapabilities {
    buttons: Vec<GamepadCapability>,
    axes: Vec<GamepadCapability>,
}

/// Abstract contents of gamepad capabilities, indexed by button and axis slot.
pub struct GamepadCapabilitiesView {
    pub buttons: Seq<GamepadCapability>,
    pub axes: Seq<GamepadCapability>,
}

impl View for GamepadCapabilities {
    type V = GamepadCapabilitiesView;

    closed spec fn view(&self) -> GamepadCapabilitiesView {
        GamepadCapabilitiesView { buttons: self.buttons@, axes: self.axes@ }
    }
}

fn filled(capability: GamepadCapability, count: usize) -> (values: Vec<GamepadCapability>)
    ensures
        values@ == Seq::new(count as nat, |i: int| capability),
{
    let mut values: Vec<GamepadCapability> = Vec::new();
    let mut i: usize = 0;
    while i < count
        invariant
            i <= count,
            values@ == Seq::new(i as nat, |k: int| capability),
        decreases count - i,
    {
        values.push(capability);
        i = i + 1;
        assert(values@ =~= Seq::new(i as nat, |k: int| capability));
    }
    values
}

impl Clone for GamepadCapabilities {
    fn clone(&self) -> (copy: Self)
        ensures
            copy@ == self@,
    {
        proof {
            use_type_invariant(self);
        }
        let buttons = self.buttons.clone();
        let axes = self.axes.clone();
        assert(buttons@ == self.buttons@);
        assert(axes@ == self.axes@);
        GamepadCapabilities { buttons, axes }
    }
}

impl Default for GamepadCapabilities {
    fn default() -> (capabilities: Self)
        ensures
            capabilities@.buttons == Seq::new(GAMEPAD_BUTTON_COUNT as nat, |i: int| GamepadCapability::Unknown),
            capabilities@.axes == Seq::new(GAMEPAD_AXIS_COUNT as nat, |i: int| GamepadCapability::Unknown),
    {
        GamepadCapabilities::unknown()
    }
}

impl GamepadCapabilities {
    #[verifier::type_invariant]
    spec fn inv(self) -> bool {
        &&& self.buttons@.len() == GAMEPAD_BUTTON_COUNT
        &&& self.axes@.len() == GAMEPAD_AXIS_COUNT
    }

    /// Capabilities given slot by slot.
    pub(crate) fn from_slots(buttons: Vec<GamepadCapability>, axes: Vec<GamepadCapability>) -> (capabilities: Self)
        requires
            buttons@.len() == GAMEPAD_BUTTON_COUNT,
            axes@.len() == GAMEPAD_AXIS_COUNT,
        ensures
            capabilities@.buttons == buttons@,
            capabilities@.axes == axes@,
    {
        GamepadCapabilities { buttons, axes }
    }

    /// Capabilities of a gamepad about which nothing is known.
    pub fn unknown() -> (capabilities: Self)
        ensures
            capabilities@.buttons == Seq::new(GAMEPAD_BUTTON_COUNT as nat, |i: int| GamepadCapability::Unknown),
            capabilities@.axes == Seq::new(GAMEPAD_AXIS_COUNT as nat, |i: int| GamepadCapability::Unknown),
    {
        GamepadCapabilities {
            buttons: filled(GamepadCapability::Unknown, GAMEPAD_BUTTON_COUNT),
            axes: filled(GamepadCapability::Unknown, GAMEPAD_AXIS_COUNT),
        }
    }

    /// Capabilities of a gamepad with every standard button and axis.
    pub fn standard() -> (capabilities: Self)
        ensures
            capabilities@.buttons == Seq::new(GAMEPAD_BUTTON_COUNT as nat, |i: int| GamepadCapability::Available),
            capabilities@.axes == Seq::new(GAMEPAD_AXIS_COUNT as nat, |i: int| GamepadCapability::Available),
    {
        GamepadCapabilities {
            buttons: filled(GamepadCapability::Available, GAMEPAD_BUTTON_COUNT),
            axes: filled(GamepadCapability::Available, GAMEPAD_AXIS_COUNT),
        }
    }

    pub fn button(&self, button: GamepadButton) -> (capability: GamepadCapability)
        ensures
            capability == self@.buttons[gamepad_button_slot(button)],
            self@.buttons.len() == GAMEPAD_BUTTON_COUNT,
            self@.axes.len() == GAMEPAD_AXIS_COUNT,
    {
        proof {
            use_type_invariant(self);
        }
        self.buttons[gamepad_button_index(button)]
    }

    pub fn axis(&self, axis: GamepadAxis) -> (capability: GamepadCapability)
        ensures
            capability == self@.axes[gamepad_axis_slot(axis)],
            self@.buttons.len() == GAMEPAD_BUTTON_COUNT,
            self@.axes.len() == GAMEPAD_AXIS_COUNT,
    {
        proof {
            use_type_invariant(self);
        }
        self.axes[gamepad_axis_index(axis)]
    }

    pub fn set_button(&mut self, button: GamepadButton, capability: GamepadCapability)
        ensures
            final(self)@.buttons == old(self)@.buttons.update(gamepad_button_slot(button), capability),
            final(self)@.axes == old(self)@.axes,
            old(self)@.buttons.len() == GAMEPAD_BUTTON_COUNT,
            old(self)@.axes.len() == GAMEPAD_AXIS_COUNT,
            final(self)@.buttons.len() == GAMEPAD_BUTTON_COUNT,
            final(self)@.axes.len() == GAMEPAD_AXIS_COUNT,
    {
        proof {
            use_type_invariant(&*self);
        }
        self.buttons[gamepad_button_index(button)] = capability;
    }

    pub fn set_axis(&mut self, axis: GamepadAxis, capability: GamepadCapability)
        ensures
            final(self)@.axes == old(self)@.axes.update(gamepad_axis_slot(axis), capability),
            final(self)@.buttons == old(self)@.buttons,
            old(self)@.buttons.len() == GAMEPAD_BUTTON_COUNT,
            old(self)@.axes.len() == GAMEPAD_AXIS_COUNT,
            final(self)@.buttons.len() == GAMEPAD_BUTTON_COUNT,
            final(self)@.axes.len() == GAMEPAD_AXIS_COUNT,
    {
        proof {
            use_type_invariant(&*self);
        }
        self.axes[gamepad_axis_index(axis)] = capability;
    }
}

/// What the platform reports about one gamepad.
#[derive(Debug, PartialEq, Eq)]
pub struct GamepadDeviceInfo {
    pub id: GamepadId,
    pub name: String,
    pub os_name: Option<String>,
    pub mapping_name: Option<String>,
    pub mapping_source: GamepadMappingSource,
    pub guid: Option<String>,
    pub vendor_id: Option<u16>,
    pub product_id: Option<u16>,
    pub capabilities: GamepadCapabilities,
}

/// Abstract contents of a gamepad's device information.
pub struct GamepadDeviceInfoView {
    pub id: GamepadId,
    pub name: Seq<char>,
    pub os_name: Option<Seq<char>>,
    pub mapping_name: Option<Seq<char>>,
    pub mapping_source: GamepadMappingSource,
    pub guid: Option<Seq<char>>,
    pub vendor_id: Option<u16>,
    pub product_id: Option<u16>,
    pub capabilities: GamepadCapabilitiesView,
}

pub open spec fn optional_text_view(text: Option<String>) -> Option<Seq<char>> {
    match text {
        Some(text) => Some(text@),
        None => None,
    }
}

impl View for GamepadDeviceInfo {
    type V = GamepadDeviceInfoView;

    open spec fn view(&self) -> GamepadDeviceInfoView {
        GamepadDeviceInfoView {
            id: self.id,
            name: self.name@,
            os_name: optional_text_view(self.os_name),
            mapping_name: optional_text_view(self.mapping_name),
            mapping_source: self.mapping_source,
            guid: optional_text_view(self.guid),
            vendor_id: self.vendor_id,
            product_id: self.product_id,
            capabilities: self.capabilities@,
        }
    }
}

/// Device information of a gamepad known only by its identity and name.
pub open spec fn basic_info(id: GamepadId, name: Seq<char>) -> GamepadDeviceInfoView {
    GamepadDeviceInfoView {
        id,
        name,
        os_name: None,
        mapping_name: None,
        mapping_source: GamepadMappingSource::Unknown,
        guid: None,
        vendor_id: None,
        product_id: None,
        capabilities: GamepadCapabilitiesView {
            buttons: Seq::new(GAMEPAD_BUTTON_COUNT as nat, |i: int| GamepadCapability::Unknown),
            axes: Seq::new(GAMEPAD_AXIS_COUNT as nat, |i: int| GamepadCapability::Unknown),
        },
    }
}

/// The name a gamepad gets when nothing but its identity is known.
pub open spec fn fallback_gamepad_name(id: GamepadId) -> Seq<char> {
    "Gamepad "@ + decimal(id@ as nat)
}

fn clone_optional_text(text: &Option<String>) -> (copy: Option<String>)
    ensures
        optional_text_view(copy) == optional_text_view(*text),
{
    match text {
        Some(text) => Some(text.clone()),
        None => None,
    }
}

impl Clone for GamepadDeviceInfo {
    fn clone(&self) -> (copy: Self)
        ensures
            copy@ == self@,
    {
        GamepadDeviceInfo {
            id: self.id,
            name: self.name.clone(),
            os_name: clone_optional_text(&self.os_name),
            mapping_name: clone_optional_text(&self.mapping_name),
            mapping_source: self.mapping_source,
            guid: clone_optional_text(&self.guid),
            vendor_id: self.vendor_id,
            product_id: self.product_id,
            capabilities: self.capabilities.clone(),
        }
    }
}

impl GamepadDeviceInfo {
    /// A gamepad known only by its identity and name.
    pub fn new(id: GamepadId, name: &str) -> (info: Self)
        ensures
            info.id == id,
            info.name@ == name@,
            info.os_name is None,
            info.mapping_name is None,
            info.mapping_source == GamepadMappingSource::Unknown,
            info.guid is None,
            info.vendor_id is None,
            info.product_id is None,
            info.capabilities@.buttons == Seq::new(GAMEPAD_BUTTON_COUNT as nat, |i: int| GamepadCapability::Unknown),
            info.capabilities@.axes == Seq::new(GAMEPAD_AXIS_COUNT as nat, |i: int| GamepadCapability::Unknown),
            info@ == basic_info(id, name@),
    {
        GamepadDeviceInfo {
            id,
            name: String::from_str(name),
            os_name: None,
            mapping_name: None,
            mapping_source: GamepadMappingSource::Unknown,
            guid: None,
            vendor_id: None,
            product_id: None,
            capabilities: GamepadCapabilities::unknown(),
        }
    }

    /// A gamepad about which only its identity is known, named `Gamepad <id>`.
    pub fn unknown(id: GamepadId) -> (info: Self)
        ensures
            info.id == id,
            info.name@ == "Gamepad "@ + decimal(id@ as nat),
            info.os_name is None,
            info.mapping_source == GamepadMappingSource::Unknown,
            info@ == basic_info(id, fallback_gamepad_name(id)),
    {
        let mut name = String::from_str("Gamepad ");
        name.append(decimal_string(id.as_usize() as u64).as_str());
        GamepadDeviceInfo {
            id,
            name,
            os_name: None,
            mapping_name: None,
            mapping_source: GamepadMappingSource::Unknown,
            guid: None,
            vendor_id: None,
            product_id: None,
            capabilities: GamepadCapabilities::unknown(),
        }
    }
}

/// A gamepad appearing or disappearing.
#[derive(Debug, Clone, PartialEq, Eq)]
pub enum GamepadConnectionEvent {
    Connected(GamepadDeviceInfo),
    Disconnected(GamepadDeviceInfo),
}

/// Stage of one touch contact.
#[derive(Debug, Clone, Copy, PartialEq, Eq, Hash, Structural)]
pub enum TouchPhase {
    Started,
    Moved,
    Ended,
    Cancelled,
}

/// One touch contact, with its framebuffer position when it lies on the framebuffer.
#[derive(Debug, Clone, Copy, PartialEq, Eq, Hash)]
pub struct Touch {
    pub id: u64,
    pub phase: TouchPhase,
    pub position: Option<(i32, i32)>,
}

/// A button that is not down and did not change this frame.
pub open spec fn idle(state: ButtonState) -> bool {
    !state.is_pressed() && !state.is_held() && !state.is_released()
}

/// `new` is `old` after the button went down (see `ButtonState::set_pressed`).
pub open spec fn after_press(old: ButtonState, new: ButtonState) -> bool {
    new.is_pressed() == (old.is_pressed() || !old.is_held()) && new.is_held() && !new.is_released()
}

/// `new` is `old` after the button went up (see `ButtonState::set_released`).
pub open spec fn after_release(old: ButtonState, new: ButtonState) -> bool {
    new.is_released() == (old.is_released() || old.is_held()) && !new.is_held() && new.is_pressed()
        == old.is_pressed()
}

/// `new` is `old` after the button went down or up.
pub open spec fn after_hold(old: ButtonState, new: ButtonState, held: bool) -> bool {
    if held {
        after_press(old, new)
    } else {
        after_release(old, new)
    }
}

/// `new` is `old` at the start of a new frame.
pub open spec fn after_frame(old: ButtonState, new: ButtonState) -> bool {
    new.is_held() == old.is_held() && !new.is_pressed() && !new.is_released()
}

/// A button state is nothing but its three flags.
pub proof fn lemma_button_flags(a: ButtonState, b: ButtonState)
    requires
        a.is_pressed() == b.is_pressed(),
        a.is_held() == b.is_held(),
        a.is_released() == b.is_released(),
    ensures
        a == b,
{
}

/// Per-frame state of one button: pressed this frame, held, released this frame.
#[derive(Debug, Clone, Copy, PartialEq, Eq, Structural)]
pub struct ButtonState {
    pressed: bool,
    held: bool,
    released: bool,
}

impl Default for ButtonState {
    fn default() -> (state: Self)
        ensures
            !state.is_pressed() && !state.is_held() && !state.is_released(),
    {
        ButtonState { pressed: false, held: false, released: false }
    }
}

impl ButtonState {
    pub closed spec fn is_pressed(self) -> bool {
        self.pressed
    }

    pub closed spec fn is_held(self) -> bool {
        self.held
    }

    pub closed spec fn is_released(self) -> bool {
        self.released
    }

    /// Went down this frame.
    pub fn pressed(self) -> (pressed: bool)
        ensures
            pressed == self.is_pressed(),
    {
        self.pressed
    }

    /// Is down.
    pub fn held(self) -> (held: bool)
        ensures
            held == self.is_held(),
    {
        self.held
    }

    /// Went up this frame.
    pub fn released(self) -> (released: bool)
        ensures
            released == self.is_released(),
    {
        self.released
    }

    /// The state of a button that was held (or not) last frame and is held (or not) now.
    pub closed spec fn transition(was_held: bool, held: bool) -> ButtonState {
        ButtonState { pressed: held && !was_held, held, released: !held && was_held }
    }

    /// The state of a button that was held (or not) last frame and is held (or not) now.
    pub fn from_transition(was_held: bool, held: bool) -> (state: Self)
        ensures
            state == ButtonState::transition(was_held, held),
            state.is_held() == held,
            state.is_pressed() == (held && !was_held),
            state.is_released() == (!held && was_held),
    {
        ButtonState { pressed: held && !was_held, held, released: !held && was_held }
    }

    /// Records the button going down; it counts as pressed unless it was already held.
    pub fn set_pressed(&mut self)
        ensures
            final(self).is_pressed() == (old(self).is_pressed() || !old(self).is_held()),
            final(self).is_held(),
            !final(self).is_released(),
    {
        if !self.held {
            self.pressed = true;
        }
        self.held = true;
        self.released = false;
    }

    /// Records the button going up; it counts as released if it was held.
    pub fn set_released(&mut self)
        ensures
            final(self).is_released() == (old(self).is_released() || old(self).is_held()),
            !final(self).is_held(),
            final(self).is_pressed() == old(self).is_pressed(),
    {
        if self.held {
            self.released = true;
        }
        self.held = false;
    }

    /// Records the button going down or up.
    pub fn set_held(&mut self, held: bool)
        ensures
            held ==> final(self).is_pressed() == (old(self).is_pressed() || !old(self).is_held())
                && final(self).is_held() && !final(self).is_released(),
            !held ==> final(self).is_released() == (old(self).is_released() || old(self).is_held())
                && !final(self).is_held() && final(self).is_pressed() == old(self).is_pressed(),
    {
        if held {
            self.set_pressed();
        } else {
            self.set_released();
        }
    }

    /// Pressed, held or released when either state is.
    pub fn either(a: ButtonState, b: ButtonState) -> (state: ButtonState)
        ensures
            state.is_pressed() == (a.is_pressed() || b.is_pressed()),
            state.is_held() == (a.is_held() || b.is_held()),
            state.is_released() == (a.is_released() || b.is_released()),
    {
        ButtonState { pressed: a.pressed || b.pressed, held: a.held || b.held, released: a.released || b.released }
    }

    /// Starts a new frame: the button stays held or not, and nothing is pressed or
    /// released yet.
    pub fn advance_frame(&mut self)
        ensures
            final(self).is_held() == old(self).is_held(),
            !final(self).is_pressed(),
            !final(self).is_released(),
    {
        self.pressed = false;
        self.released = false;
    }
}

} // verus!
