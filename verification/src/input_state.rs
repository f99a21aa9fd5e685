use vstd::prelude::*;

use crate::input::{
    after_frame, after_hold, after_press, after_release, basic_info, fallback_gamepad_name, gamepad_axis_slot,
    gamepad_button_index, gamepad_button_slot, idle, key_index, key_slot, mouse_button_index, mouse_button_slot,
    ButtonState, GamepadAxis, GamepadButton, GamepadCapability, GamepadConnectionEvent, GamepadDeviceInfo,
    GamepadDeviceInfoView, GamepadId, Key, MouseButton, Touch, GAMEPAD_BUTTON_COUNT, KEY_COUNT,
    MOUSE_BUTTON_COUNT,
};

verus! {

/// Abstract form of a gamepad appearing or disappearing.
pub enum GamepadConnectionEventView {
    Connected(GamepadDeviceInfoView),
    Disconnected(GamepadDeviceInfoView),
}

pub open spec fn event_view(event: GamepadConnectionEvent) -> GamepadConnectionEventView {
    match event {
        GamepadConnectionEvent::Connected(info) => GamepadConnectionEventView::Connected(info@),
        GamepadConnectionEvent::Disconnected(info) => GamepadConnectionEventView::Disconnected(info@),
    }
}

/// The digital input of one frame: keys, mouse, touches, and connected gamepads with
/// their buttons, in the order in which they connected.
#[derive(Debug)]
pub struct InputState {
    keys: [ButtonState; KEY_COUNT],
    mouse_buttons: [ButtonState; MOUSE_BUTTON_COUNT],
    mouse_position: Option<(i32, i32)>,
    touches: Vec<Touch>,
    gamepads: Vec<(GamepadDeviceInfo, [ButtonState; GAMEPAD_BUTTON_COUNT])>,
    events: Vec<GamepadConnectionEvent>,
}

/// Abstract contents of the input state.
pub struct InputView {
    pub keys: Seq<ButtonState>,
    pub mouse_buttons: Seq<ButtonState>,
    pub mouse_position: Option<(i32, i32)>,
    pub touches: Seq<Touch>,
    pub gamepads: Seq<(GamepadDeviceInfoView, Seq<ButtonState>)>,
    pub events: Seq<GamepadConnectionEventView>,
}

/// Position of the gamepad `id`, from `start` on, or -1.
pub open spec fn gamepad_position(gamepads: Seq<(GamepadDeviceInfoView, Seq<ButtonState>)>, id: GamepadId, start: int) -> int
    decreases gamepads.len() - start,
{
    if start < 0 || start >= gamepads.len() {
        -1
    } else if gamepads[start].0.id == id {
        start
    } else {
        gamepad_position(gamepads, id, start + 1)
    }
}

pub open spec fn all_idle(states: Seq<ButtonState>, count: nat) -> bool {
    states.len() == count && forall|i: int| 0 <= i < count ==> idle(#[trigger] states[i])
}

/// `new` is `old` with the button in slot `slot` changed as `step` says and the
/// others unchanged.
pub open spec fn one_changed(old: Seq<ButtonState>, new: Seq<ButtonState>, slot: int, step: spec_fn(ButtonState, ButtonState) -> bool) -> bool {
    &&& new.len() == old.len()
    &&& step(old[slot], new[slot])
    &&& forall|i: int| 0 <= i < old.len() && i != slot ==> new[i] == old[i]
}

pub open spec fn all_advanced(old: Seq<ButtonState>, new: Seq<ButtonState>) -> bool {
    new.len() == old.len() && forall|i: int| 0 <= i < old.len() ==> after_frame(old[i], #[trigger] new[i])
}

impl InputView {
    /// The connected gamepad `id` with its buttons, if it is connected.
    pub open spec fn gamepad(self, id: GamepadId) -> Option<(GamepadDeviceInfoView, Seq<ButtonState>)> {
        let position = gamepad_position(self.gamepads, id, 0);
        if position < 0 {
            None
        } else {
            Some(self.gamepads[position])
        }
    }

    /// Gamepads are distinct and each has every button.
    pub open spec fn gamepads_consistent(self) -> bool {
        &&& forall|g: int| 0 <= g < self.gamepads.len() ==> (#[trigger] self.gamepads[g]).1.len() == GAMEPAD_BUTTON_COUNT
        &&& forall|g: int, h: int|
            0 <= g < h < self.gamepads.len() ==> (#[trigger] self.gamepads[g]).0.id != (#[trigger] self.gamepads[h]).0.id
    }
}

impl View for InputState {
    type V = InputView;

    closed spec fn view(&self) -> InputView {
        InputView {
            keys: self.keys@,
            mouse_buttons: self.mouse_buttons@,
            mouse_position: self.mouse_position,
            touches: self.touches@,
            gamepads: self.gamepads@.map_values(|pad: (GamepadDeviceInfo, [ButtonState; GAMEPAD_BUTTON_COUNT])| (pad.0@, pad.1@)),
            events: self.events@.map_values(|event: GamepadConnectionEvent| event_view(event)),
        }
    }
}

proof fn lemma_gamepad_position(gamepads: Seq<(GamepadDeviceInfoView, Seq<ButtonState>)>, id: GamepadId, start: int)
    requires
        0 <= start,
    ensures
        gamepad_position(gamepads, id, start) < 0 ==> forall|g: int|
            start <= g < gamepads.len() ==> (#[trigger] gamepads[g]).0.id != id,
        gamepad_position(gamepads, id, start) >= 0 ==> start <= gamepad_position(gamepads, id, start)
            < gamepads.len() && gamepads[gamepad_position(gamepads, id, start)].0.id == id,
    decreases gamepads.len() - start,
{
    if start < gamepads.len() && gamepads[start].0.id != id {
        lemma_gamepad_position(gamepads, id, start + 1);
    }
}

proof fn lemma_gamepad_position_at(gamepads: Seq<(GamepadDeviceInfoView, Seq<ButtonState>)>, id: GamepadId, start: int, k: int)
    requires
        0 <= start <= k < gamepads.len(),
        gamepads[k].0.id == id,
        forall|g: int| start <= g < k ==> (#[trigger] gamepads[g]).0.id != id,
    ensures
        gamepad_position(gamepads, id, start) == k,
    decreases k - start,
{
    if start < k {
        lemma_gamepad_position_at(gamepads, id, start + 1, k);
    }
}

proof fn lemma_gamepad_position_absent(gamepads: Seq<(GamepadDeviceInfoView, Seq<ButtonState>)>, id: GamepadId, start: int)
    requires
        0 <= start,
        forall|g: int| start <= g < gamepads.len() ==> (#[trigger] gamepads[g]).0.id != id,
    ensures
        gamepad_position(gamepads, id, start) < 0,
    decreases gamepads.len() - start,
{
    if start < gamepads.len() {
        lemma_gamepad_position_absent(gamepads, id, start + 1);
    }
}

fn idle_buttons<const N: usize>() -> (states: [ButtonState; N])
    ensures
        all_idle(states@, N as nat),
{
    let states = [ButtonState::default(); N];
    assert(states@.len() == N);
    states
}

fn change_one<const N: usize>(states: [ButtonState; N], slot: usize, step: u8, held: bool) -> (changed: [ButtonState; N])
    requires
        slot < N,
        step < 3,
    ensures
        changed@.len() == N,
        step == 0 ==> after_hold(states@[slot as int], changed@[slot as int], held),
        step == 1 ==> after_press(states@[slot as int], changed@[slot as int]),
        step == 2 ==> after_release(states@[slot as int], changed@[slot as int]),
        forall|i: int| 0 <= i < N && i != slot ==> changed@[i] == states@[i],
{
    let mut states = states;
    let mut state = states[slot];
    if step == 0 {
        state.set_held(held);
    } else if step == 1 {
        state.set_pressed();
    } else {
        state.set_released();
    }
    states[slot] = state;
    states
}

fn advance_all<const N: usize>(states: [ButtonState; N]) -> (advanced: [ButtonState; N])
    ensures
        all_advanced(states@, advanced@),
{
    let mut states = states;
    let ghost original = states@;
    let mut i: usize = 0;
    while i < N
        invariant
            i <= N,
            states@.len() == N,
            original.len() == N,
            forall|j: int| 0 <= j < i ==> after_frame(original[j], #[trigger] states@[j]),
            forall|j: int| i <= j < N ==> states@[j] == original[j],
        decreases N - i,
    {
        let mut state = states[i];
        state.advance_frame();
        states[i] = state;
        i = i + 1;
    }
    states
}

impl Default for InputState {
    fn default() -> (input: Self)
        ensures
            all_idle(input@.keys, KEY_COUNT as nat),
            all_idle(input@.mouse_buttons, MOUSE_BUTTON_COUNT as nat),
            input@.mouse_position is None,
            input@.touches.len() == 0,
            input@.gamepads.len() == 0,
            input@.events.len() == 0,
    {
        InputState::new()
    }
}

impl InputState {
    #[verifier::type_invariant]
    spec fn inv(self) -> bool {
        self@.gamepads_consistent()
    }

    /// No key, button or gamepad is down, and nothing is connected.
    pub fn new() -> (input: Self)
        ensures
            all_idle(input@.keys, KEY_COUNT as nat),
            all_idle(input@.mouse_buttons, MOUSE_BUTTON_COUNT as nat),
            input@.mouse_position is None,
            input@.touches.len() == 0,
            input@.gamepads.len() == 0,
            input@.events.len() == 0,
    {
        let input = InputState {
            keys: idle_buttons(),
            mouse_buttons: idle_buttons(),
            mouse_position: None,
            touches: Vec::new(),
            gamepads: Vec::new(),
            events: Vec::new(),
        };
        assert(input@.gamepads =~= Seq::<(GamepadDeviceInfoView, Seq<ButtonState>)>::empty());
        assert(input@.events =~= Seq::<GamepadConnectionEventView>::empty());
        input
    }

    pub fn key(&self, key: Key) -> (state: ButtonState)
        ensures
            state == self@.keys[key_slot(key)],
    {
        proof {
            use_type_invariant(self);
        }
        self.keys[key_index(key)]
    }

    pub fn mouse_button(&self, button: MouseButton) -> (state: ButtonState)
        ensures
            state == self@.mouse_buttons[mouse_button_slot(button)],
    {
        proof {
            use_type_invariant(self);
        }
        self.mouse_buttons[mouse_button_index(button)]
    }

    pub fn mouse_position(&self) -> (position: Option<(i32, i32)>)
        ensures
            position == self@.mouse_position,
    {
        self.mouse_position
    }

    pub fn touches(&self) -> (touches: &[Touch])
        ensures
            touches@ == self@.touches,
    {
        self.touches.as_slice()
    }

    pub fn gamepad_connection_events(&self) -> (events: &[GamepadConnectionEvent])
        ensures
            events@.map_values(|event: GamepadConnectionEvent| event_view(event)) == self@.events,
    {
        let events = self.events.as_slice();
        assert(events@.map_values(|event: GamepadConnectionEvent| event_view(event)) =~= self@.events);
        events
    }

    fn find_gamepad(&self, id: GamepadId) -> (position: Option<usize>)
        ensures
            match position {
                Some(p) => p == gamepad_position(self@.gamepads, id, 0) && p < self@.gamepads.len(),
                None => gamepad_position(self@.gamepads, id, 0) < 0,
            },
    {
        let mut i: usize = 0;
        while i < self.gamepads.len()
            invariant
                i <= self.gamepads@.len(),
                self@.gamepads.len() == self.gamepads@.len(),
                gamepad_position(self@.gamepads, id, 0) == gamepad_position(self@.gamepads, id, i as int),
            decreases self.gamepads@.len() - i,
        {
            assert(self@.gamepads[i as int].0.id == self.gamepads@[i as int].0.id);
            if self.gamepads[i].0.id == id {
                return Some(i);
            }
            i = i + 1;
        }
        None
    }

    /// Whether the gamepad `id` is connected.
    pub fn gamepad_connected(&self, id: GamepadId) -> (connected: bool)
        ensures
            connected == (self@.gamepad(id) is Some),
    {
        self.find_gamepad(id).is_some()
    }

    /// The device information of the gamepad `id`, if it is connected.
    pub fn gamepad_info(&self, id: GamepadId) -> (info: Option<&GamepadDeviceInfo>)
        ensures
            match self@.gamepad(id) {
                Some(pad) => info matches Some(found) && found@ == pad.0,
                None => info is None,
            },
    {
        match self.find_gamepad(id) {
            Some(position) => Some(&self.gamepads[position].0),
            None => None,
        }
    }

    /// The identities of the connected gamepads, in the order in which they connected.
    pub fn gamepad_ids(&self) -> (ids: Vec<GamepadId>)
        ensures
            ids@.len() == self@.gamepads.len(),
            forall|g: int| 0 <= g < ids@.len() ==> #[trigger] ids@[g] == self@.gamepads[g].0.id,
    {
        let mut ids: Vec<GamepadId> = Vec::new();
        let mut i: usize = 0;
        while i < self.gamepads.len()
            invariant
                i <= self.gamepads@.len(),
                self@.gamepads.len() == self.gamepads@.len(),
                ids@.len() == i,
                forall|g: int| 0 <= g < i ==> #[trigger] ids@[g] == self@.gamepads[g].0.id,
            decreases self.gamepads@.len() - i,
        {
            ids.push(self.gamepads[i].0.id);
            i = i + 1;
        }
        ids
    }

    /// The state of `button` on the gamepad `id`; an unknown gamepad's buttons are idle.
    pub fn gamepad_button(&self, id: GamepadId, button: GamepadButton) -> (state: ButtonState)
        ensures
            match self@.gamepad(id) {
                Some(pad) => state == pad.1[gamepad_button_slot(button)],
                None => idle(state),
            },
    {
        proof {
            use_type_invariant(self);
        }
        match self.find_gamepad(id) {
            Some(position) => {
                proof {
                    lemma_gamepad_position(self@.gamepads, id, 0);
                    assert(self@.gamepads[position as int].1 == self.gamepads@[position as int].1@);
                }
                self.gamepads[position].1[gamepad_button_index(button)]
            },
            None => ButtonState::default(),
        }
    }

    /// `button` on any connected gamepad: pressed, held or released when it is so on
    /// at least one of them.
    pub fn gamepad_button_any(&self, button: GamepadButton) -> (state: ButtonState)
        ensures
            state.is_pressed() == exists|g: int|
                0 <= g < self@.gamepads.len() && (#[trigger] self@.gamepads[g]).1[gamepad_button_slot(button)].is_pressed(),
            state.is_held() == exists|g: int|
                0 <= g < self@.gamepads.len() && (#[trigger] self@.gamepads[g]).1[gamepad_button_slot(button)].is_held(),
            state.is_released() == exists|g: int|
                0 <= g < self@.gamepads.len() && (#[trigger] self@.gamepads[g]).1[gamepad_button_slot(button)].is_released(),
    {
        proof {
            use_type_invariant(self);
        }
        let slot = gamepad_button_index(button);
        let mut state = ButtonState::default();
        let mut i: usize = 0;
        while i < self.gamepads.len()
            invariant
                i <= self.gamepads@.len(),
                self@.gamepads.len() == self.gamepads@.len(),
                self@.gamepads_consistent(),
                slot == gamepad_button_slot(button),
                state.is_pressed() == exists|g: int|
                    0 <= g < i && (#[trigger] self@.gamepads[g]).1[slot as int].is_pressed(),
                state.is_held() == exists|g: int| 0 <= g < i && (#[trigger] self@.gamepads[g]).1[slot as int].is_held(),
                state.is_released() == exists|g: int|
                    0 <= g < i && (#[trigger] self@.gamepads[g]).1[slot as int].is_released(),
            decreases self.gamepads@.len() - i,
        {
            assert(self@.gamepads[i as int].1 == self.gamepads@[i as int].1@);
            state = ButtonState::either(state, self.gamepads[i].1[slot]);
            i = i + 1;
        }
        state
    }

    /// What the gamepad `id` reports about `button`; unknown when it is not connected.
    pub fn gamepad_button_capability(&self, id: GamepadId, button: GamepadButton) -> (capability: GamepadCapability)
        ensures
            match self@.gamepad(id) {
                Some(pad) => capability == pad.0.capabilities.buttons[gamepad_button_slot(button)],
                None => capability == GamepadCapability::Unknown,
            },
    {
        match self.gamepad_info(id) {
            Some(info) => info.capabilities.button(button),
            None => GamepadCapability::Unknown,
        }
    }

    /// What the gamepad `id` reports about `axis`; unknown when it is not connected.
    pub fn gamepad_axis_capability(&self, id: GamepadId, axis: GamepadAxis) -> (capability: GamepadCapability)
        ensures
            match self@.gamepad(id) {
                Some(pad) => capability == pad.0.capabilities.axes[gamepad_axis_slot(axis)],
                None => capability == GamepadCapability::Unknown,
            },
    {
        match self.gamepad_info(id) {
            Some(info) => info.capabilities.axis(axis),
            None => GamepadCapability::Unknown,
        }
    }

    /// Records a key going down.
    pub fn press_key(&mut self, key: Key)
        ensures
            one_changed(old(self)@.keys, final(self)@.keys, key_slot(key), |a: ButtonState, b: ButtonState| after_press(a, b)),
            final(self)@.mouse_buttons == old(self)@.mouse_buttons,
            final(self)@.mouse_position == old(self)@.mouse_position,
            final(self)@.touches == old(self)@.touches,
            final(self)@.gamepads == old(self)@.gamepads,
            final(self)@.events == old(self)@.events,
    {
        proof {
            use_type_invariant(&*self);
        }
        self.keys = change_one(self.keys, key_index(key), 1, true);
    }

    /// Records a key going up.
    pub fn release_key(&mut self, key: Key)
        ensures
            one_changed(old(self)@.keys, final(self)@.keys, key_slot(key), |a: ButtonState, b: ButtonState| after_release(a, b)),
            final(self)@.mouse_buttons == old(self)@.mouse_buttons,
            final(self)@.mouse_position == old(self)@.mouse_position,
            final(self)@.touches == old(self)@.touches,
            final(self)@.gamepads == old(self)@.gamepads,
            final(self)@.events == old(self)@.events,
    {
        proof {
            use_type_invariant(&*self);
        }
        self.keys = change_one(self.keys, key_index(key), 2, false);
    }

    /// Records a mouse button going down.
    pub fn press_mouse_button(&mut self, button: MouseButton)
        ensures
            one_changed(
                old(self)@.mouse_buttons,
                final(self)@.mouse_buttons,
                mouse_button_slot(button),
                |a: ButtonState, b: ButtonState| after_press(a, b),
            ),
            final(self)@.keys == old(self)@.keys,
            final(self)@.mouse_position == old(self)@.mouse_position,
            final(self)@.touches == old(self)@.touches,
            final(self)@.gamepads == old(self)@.gamepads,
            final(self)@.events == old(self)@.events,
    {
        proof {
            use_type_invariant(&*self);
        }
        self.mouse_buttons = change_one(self.mouse_buttons, mouse_button_index(button), 1, true);
    }

    /// Records a mouse button going up.
    pub fn release_mouse_button(&mut self, button: MouseButton)
        ensures
            one_changed(
                old(self)@.mouse_buttons,
                final(self)@.mouse_buttons,
                mouse_button_slot(button),
                |a: ButtonState, b: ButtonState| after_release(a, b),
            ),
            final(self)@.keys == old(self)@.keys,
            final(self)@.mouse_position == old(self)@.mouse_position,
            final(self)@.touches == old(self)@.touches,
            final(self)@.gamepads == old(self)@.gamepads,
            final(self)@.events == old(self)@.events,
    {
        proof {
            use_type_invariant(&*self);
        }
        self.mouse_buttons = change_one(self.mouse_buttons, mouse_button_index(button), 2, false);
    }

    /// Records where the mouse is, or that it is not over the framebuffer.
    pub fn set_mouse_position(&mut self, position: Option<(i32, i32)>)
        ensures
            final(self)@.mouse_position == position,
            final(self)@.keys == old(self)@.keys,
            final(self)@.mouse_buttons == old(self)@.mouse_buttons,
            final(self)@.touches == old(self)@.touches,
            final(self)@.gamepads == old(self)@.gamepads,
            final(self)@.events == old(self)@.events,
    {
        proof {
            use_type_invariant(&*self);
        }
        self.mouse_position = position;
    }

    /// Records a touch event of this frame.
    pub fn push_touch(&mut self, touch: Touch)
        ensures
            final(self)@.touches == old(self)@.touches.push(touch),
            final(self)@.keys == old(self)@.keys,
            final(self)@.mouse_buttons == old(self)@.mouse_buttons,
            final(self)@.mouse_position == old(self)@.mouse_position,
            final(self)@.gamepads == old(self)@.gamepads,
            final(self)@.events == old(self)@.events,
    {
        proof {
            use_type_invariant(&*self);
        }
        let mut touches = Vec::new();
        std::mem::swap(&mut touches, &mut self.touches);
        touches.push(touch);
        self.touches = touches;
    }

    fn push_event(&mut self, event: GamepadConnectionEvent)
        ensures
            final(self)@.events == old(self)@.events.push(event_view(event)),
            final(self)@.keys == old(self)@.keys,
            final(self)@.mouse_buttons == old(self)@.mouse_buttons,
            final(self)@.mouse_position == old(self)@.mouse_position,
            final(self)@.touches == old(self)@.touches,
            final(self)@.gamepads == old(self)@.gamepads,
    {
        proof {
            use_type_invariant(&*self);
        }
        let ghost before = self@.events;
        let mut events = Vec::new();
        std::mem::swap(&mut events, &mut self.events);
        events.push(event);
        self.events = events;
        assert(self@.events =~= before.push(event_view(event)));
    }

    /// Adds a gamepad that is not connected yet, all buttons idle.
    fn add_gamepad(&mut self, info: GamepadDeviceInfo)
        requires
            old(self)@.gamepad(info@.id) is None,
        ensures
            final(self)@.gamepads.len() == old(self)@.gamepads.len() + 1,
            final(self)@.gamepads.drop_last() == old(self)@.gamepads,
            final(self)@.gamepads.last().0 == info@,
            all_idle(final(self)@.gamepads.last().1, GAMEPAD_BUTTON_COUNT as nat),
            final(self)@.gamepad(info@.id) == Some(final(self)@.gamepads.last()),
            final(self)@.keys == old(self)@.keys,
            final(self)@.mouse_buttons == old(self)@.mouse_buttons,
            final(self)@.mouse_position == old(self)@.mouse_position,
            final(self)@.touches == old(self)@.touches,
            final(self)@.events == old(self)@.events,
    {
        proof {
            use_type_invariant(&*self);
            lemma_gamepad_position(self@.gamepads, info@.id, 0);
        }
        let ghost before = self@.gamepads;
        let ghost info_view = info@;
        let buttons: [ButtonState; GAMEPAD_BUTTON_COUNT] = idle_buttons();
        let mut gamepads = Vec::new();
        std::mem::swap(&mut gamepads, &mut self.gamepads);
        gamepads.push((info, buttons));
        let ghost grown = gamepads@.map_values(|pad: (GamepadDeviceInfo, [ButtonState; GAMEPAD_BUTTON_COUNT])| (pad.0@, pad.1@));
        assert(grown.drop_last() =~= before);
        proof {
            assert forall|g: int, h: int| 0 <= g < h < grown.len() implies (#[trigger] grown[g]).0.id
                != (#[trigger] grown[h]).0.id by {
                assert(grown[g] == before[g]);
                if h < before.len() {
                    assert(grown[h] == before[h]);
                }
            }
            assert forall|g: int| 0 <= g < grown.len() implies (#[trigger] grown[g]).1.len() == GAMEPAD_BUTTON_COUNT by {
                if g < before.len() {
                    assert(grown[g] == before[g]);
                }
            }
            assert forall|g: int| 0 <= g < before.len() implies (#[trigger] grown[g]).0.id != info_view.id by {
                assert(grown[g] == before[g]);
            }
            lemma_gamepad_position_at(grown, info_view.id, 0, before.len() as int);
        }
        self.gamepads = gamepads;
    }

    /// Records that a gamepad is connected: a new one is added with idle buttons and a
    /// connection event; a known one only has its device information replaced.
    pub fn connect_gamepad_info(&mut self, info: GamepadDeviceInfo)
        ensures
            match old(self)@.gamepad(info@.id) {
                Some(pad) => {
                    &&& final(self)@.gamepads == old(self)@.gamepads.update(
                        gamepad_position(old(self)@.gamepads, info@.id, 0),
                        (info@, pad.1),
                    )
                    &&& final(self)@.events == old(self)@.events
                },
                None => {
                    &&& final(self)@.gamepads.drop_last() == old(self)@.gamepads
                    &&& final(self)@.gamepads.len() == old(self)@.gamepads.len() + 1
                    &&& final(self)@.gamepads.last().0 == info@
                    &&& all_idle(final(self)@.gamepads.last().1, GAMEPAD_BUTTON_COUNT as nat)
                    &&& final(self)@.events == old(self)@.events.push(GamepadConnectionEventView::Connected(info@))
                },
            },
            final(self)@.gamepad(info@.id) matches Some(pad) && pad.0 == info@,
            final(self)@.keys == old(self)@.keys,
            final(self)@.mouse_buttons == old(self)@.mouse_buttons,
            final(self)@.mouse_position == old(self)@.mouse_position,
            final(self)@.touches == old(self)@.touches,
    {
        proof {
            use_type_invariant(&*self);
            lemma_gamepad_position(self@.gamepads, info@.id, 0);
        }
        match self.find_gamepad(info.id) {
            Some(position) => {
                let ghost before = self@.gamepads;
                let ghost info_view = info@;
                let mut gamepads = Vec::new();
                std::mem::swap(&mut gamepads, &mut self.gamepads);
                let (_, buttons) = gamepads.remove(position);
                gamepads.insert(position, (info, buttons));
                let ghost updated = gamepads@.map_values(|pad: (GamepadDeviceInfo, [ButtonState; GAMEPAD_BUTTON_COUNT])| (pad.0@, pad.1@));
                assert(updated =~= before.update(position as int, (info_view, before[position as int].1)));
                proof {
                    assert forall|g: int, h: int| 0 <= g < h < updated.len() implies (#[trigger] updated[g]).0.id
                        != (#[trigger] updated[h]).0.id by {
                        assert(updated[g].0.id == before[g].0.id);
                        assert(updated[h].0.id == before[h].0.id);
                    }
                    assert forall|g: int| 0 <= g < updated.len() implies (#[trigger] updated[g]).1.len()
                        == GAMEPAD_BUTTON_COUNT by {
                        assert(updated[g].1 == before[g].1);
                    }
                    assert forall|g: int| 0 <= g < position implies (#[trigger] updated[g]).0.id != info_view.id by {
                        assert(updated[g] == before[g]);
                    }
                    lemma_gamepad_position_at(updated, info_view.id, 0, position as int);
                }
                self.gamepads = gamepads;
            },
            None => {
                let event = GamepadConnectionEvent::Connected(info.clone());
                self.add_gamepad(info);
                self.push_event(event);
            },
        }
    }

    /// Records that a gamepad known only by its identity and name is connected.
    pub fn connect_gamepad(&mut self, id: GamepadId, name: &str)
        ensures
            match old(self)@.gamepad(id) {
                Some(pad) => {
                    &&& final(self)@.gamepads == old(self)@.gamepads.update(
                        gamepad_position(old(self)@.gamepads, id, 0),
                        (basic_info(id, name@), pad.1),
                    )
                    &&& final(self)@.events == old(self)@.events
                },
                None => {
                    &&& final(self)@.gamepads.drop_last() == old(self)@.gamepads
                    &&& final(self)@.gamepads.len() == old(self)@.gamepads.len() + 1
                    &&& final(self)@.gamepads.last().0 == basic_info(id, name@)
                    &&& all_idle(final(self)@.gamepads.last().1, GAMEPAD_BUTTON_COUNT as nat)
                    &&& final(self)@.events == old(self)@.events.push(
                        GamepadConnectionEventView::Connected(basic_info(id, name@)),
                    )
                },
            },
            final(self)@.keys == old(self)@.keys,
            final(self)@.mouse_buttons == old(self)@.mouse_buttons,
            final(self)@.mouse_position == old(self)@.mouse_position,
            final(self)@.touches == old(self)@.touches,
    {
        self.connect_gamepad_info(GamepadDeviceInfo::new(id, name));
    }

    /// Records a gamepad button going down or up; a gamepad not seen before is first
    /// connected under its fallback name.
    pub fn set_gamepad_button(&mut self, id: GamepadId, button: GamepadButton, held: bool)
        ensures
            old(self)@.gamepad(id) is None ==> {
                &&& final(self)@.gamepads.drop_last() == old(self)@.gamepads
                &&& final(self)@.gamepads.len() == old(self)@.gamepads.len() + 1
                &&& final(self)@.gamepads.last().0 == basic_info(id, fallback_gamepad_name(id))
                &&& final(self)@.events == old(self)@.events.push(
                    GamepadConnectionEventView::Connected(basic_info(id, fallback_gamepad_name(id))),
                )
            },
            old(self)@.gamepad(id) is Some ==> {
                &&& final(self)@.gamepads.len() == old(self)@.gamepads.len()
                &&& forall|g: int|
                    0 <= g < old(self)@.gamepads.len() && g != gamepad_position(old(self)@.gamepads, id, 0)
                        ==> #[trigger] final(self)@.gamepads[g] == old(self)@.gamepads[g]
                &&& final(self)@.gamepad(id).unwrap().0 == old(self)@.gamepad(id).unwrap().0
                &&& final(self)@.events == old(self)@.events
            },
            final(self)@.gamepad(id) is Some,
            final(self)@.gamepad(id).unwrap().1.len() == GAMEPAD_BUTTON_COUNT,
            old(self)@.gamepad(id) matches Some(pad) ==> one_changed(
                pad.1,
                final(self)@.gamepad(id).unwrap().1,
                gamepad_button_slot(button),
                |a: ButtonState, b: ButtonState| after_hold(a, b, held),
            ),
            old(self)@.gamepad(id) is None ==> {
                let buttons = final(self)@.gamepad(id).unwrap().1;
                &&& idle_except(buttons, gamepad_button_slot(button))
                &&& buttons[gamepad_button_slot(button)].is_pressed() == held
                &&& buttons[gamepad_button_slot(button)].is_held() == held
                &&& !buttons[gamepad_button_slot(button)].is_released()
            },
            final(self)@.keys == old(self)@.keys,
            final(self)@.mouse_buttons == old(self)@.mouse_buttons,
            final(self)@.mouse_position == old(self)@.mouse_position,
            final(self)@.touches == old(self)@.touches,
    {
        proof {
            use_type_invariant(&*self);
        }
        if self.find_gamepad(id).is_none() {
            let info = GamepadDeviceInfo::unknown(id);
            let event = GamepadConnectionEvent::Connected(info.clone());
            self.add_gamepad(info);
            self.push_event(event);
        }
        proof {
            use_type_invariant(&*self);
        }
        let position = match self.find_gamepad(id) {
            Some(position) => position,
            None => {
                proof {
                    lemma_gamepad_position(self@.gamepads, id, 0);
                }
                return;
            },
        };
        proof {
            lemma_gamepad_position(self@.gamepads, id, 0);
        }
        let ghost before = self@.gamepads;
        let mut gamepads = Vec::new();
        std::mem::swap(&mut gamepads, &mut self.gamepads);
        let (info, buttons) = gamepads.remove(position);
        assert(buttons@ == before[position as int].1);
        let buttons = change_one(buttons, gamepad_button_index(button), 0, held);
        let ghost new_buttons = buttons@;
        gamepads.insert(position, (info, buttons));
        let ghost updated = gamepads@.map_values(|pad: (GamepadDeviceInfo, [ButtonState; GAMEPAD_BUTTON_COUNT])| (pad.0@, pad.1@));
        assert(updated =~= before.update(position as int, (before[position as int].0, new_buttons)));
        proof {
            assert forall|g: int, h: int| 0 <= g < h < updated.len() implies (#[trigger] updated[g]).0.id
                != (#[trigger] updated[h]).0.id by {
                assert(updated[g].0.id == before[g].0.id);
                assert(updated[h].0.id == before[h].0.id);
            }
            assert forall|g: int| 0 <= g < updated.len() implies (#[trigger] updated[g]).1.len() == GAMEPAD_BUTTON_COUNT by {
                if g != position {
                    assert(updated[g] == before[g]);
                }
            }
            assert forall|g: int| 0 <= g < position implies (#[trigger] updated[g]).0.id != id by {
                assert(updated[g] == before[g]);
            }
            lemma_gamepad_position_at(updated, id, 0, position as int);
        }
        self.gamepads = gamepads;
    }

    /// Records that a gamepad disconnected: it is removed with a disconnection event;
    /// an unknown gamepad changes nothing.
    pub fn disconnect_gamepad(&mut self, id: GamepadId)
        ensures
            match old(self)@.gamepad(id) {
                Some(pad) => {
                    &&& final(self)@.gamepads == old(self)@.gamepads.remove(gamepad_position(old(self)@.gamepads, id, 0))
                    &&& final(self)@.events == old(self)@.events.push(GamepadConnectionEventView::Disconnected(pad.0))
                },
                None => final(self)@.gamepads == old(self)@.gamepads && final(self)@.events == old(self)@.events,
            },
            final(self)@.gamepad(id) is None,
            final(self)@.keys == old(self)@.keys,
            final(self)@.mouse_buttons == old(self)@.mouse_buttons,
            final(self)@.mouse_position == old(self)@.mouse_position,
            final(self)@.touches == old(self)@.touches,
    {
        proof {
            use_type_invariant(&*self);
            lemma_gamepad_position(self@.gamepads, id, 0);
        }
        if let Some(position) = self.find_gamepad(id) {
            let ghost before = self@.gamepads;
            let mut gamepads = Vec::new();
            std::mem::swap(&mut gamepads, &mut self.gamepads);
            let (info, _) = gamepads.remove(position);
            assert(info@ == before[position as int].0);
            let ghost remaining = gamepads@.map_values(|pad: (GamepadDeviceInfo, [ButtonState; GAMEPAD_BUTTON_COUNT])| (pad.0@, pad.1@));
            assert(remaining =~= before.remove(position as int));
            proof {
                assert forall|g: int, h: int| 0 <= g < h < remaining.len() implies (#[trigger] remaining[g]).0.id
                    != (#[trigger] remaining[h]).0.id by {
                    let gg = if g < position { g } else { g + 1 };
                    let hh = if h < position { h } else { h + 1 };
                    assert(remaining[g] == before[gg]);
                    assert(remaining[h] == before[hh]);
                }
                assert forall|g: int| 0 <= g < remaining.len() implies (#[trigger] remaining[g]).1.len()
                    == GAMEPAD_BUTTON_COUNT by {
                    let gg = if g < position { g } else { g + 1 };
                    assert(remaining[g] == before[gg]);
                }
                assert forall|g: int| 0 <= g < remaining.len() implies (#[trigger] remaining[g]).0.id != id by {
                    let gg = if g < position { g } else { g + 1 };
                    assert(remaining[g] == before[gg]);
                    if gg != position {
                        assert(before[gg].0.id != before[position as int].0.id);
                    }
                }
                lemma_gamepad_position_absent(remaining, id, 0);
            }
            self.gamepads = gamepads;
            self.push_event(GamepadConnectionEvent::Disconnected(info));
        }
    }

    /// Forgets keyboard, mouse and touch state, as when the window loses focus;
    /// gamepads are kept.
    pub fn reset_window_devices(&mut self)
        ensures
            all_idle(final(self)@.keys, KEY_COUNT as nat),
            all_idle(final(self)@.mouse_buttons, MOUSE_BUTTON_COUNT as nat),
            final(self)@.mouse_position is None,
            final(self)@.touches.len() == 0,
            final(self)@.gamepads == old(self)@.gamepads,
            final(self)@.events == old(self)@.events,
    {
        proof {
            use_type_invariant(&*self);
        }
        self.keys = idle_buttons();
        self.mouse_buttons = idle_buttons();
        self.mouse_position = None;
        self.touches = Vec::new();
        assert(self@.touches =~= Seq::<Touch>::empty());
    }

    /// Starts a new frame: every button keeps whether it is held but is no longer
    /// pressed or released, and the frame's touches and connection events are gone.
    pub fn advance_frame(&mut self)
        ensures
            all_advanced(old(self)@.keys, final(self)@.keys),
            all_advanced(old(self)@.mouse_buttons, final(self)@.mouse_buttons),
            final(self)@.gamepads.len() == old(self)@.gamepads.len(),
            forall|g: int|
                0 <= g < old(self)@.gamepads.len() ==> (#[trigger] final(self)@.gamepads[g]).0 == old(self)@.gamepads[g].0
                    && all_advanced(old(self)@.gamepads[g].1, final(self)@.gamepads[g].1),
            final(self)@.mouse_position == old(self)@.mouse_position,
            final(self)@.touches.len() == 0,
            final(self)@.events.len() == 0,
    {
        proof {
            use_type_invariant(&*self);
        }
        self.keys = advance_all(self.keys);
        self.mouse_buttons = advance_all(self.mouse_buttons);
        let ghost before = self@.gamepads;
        let mut gamepads = Vec::new();
        std::mem::swap(&mut gamepads, &mut self.gamepads);
        let mut advanced: Vec<(GamepadDeviceInfo, [ButtonState; GAMEPAD_BUTTON_COUNT])> = Vec::new();
        let mut remaining = gamepads;
        let mut i: usize = 0;
        assert(before.skip(0) =~= before);
        let ghost source = remaining@.map_values(|pad: (GamepadDeviceInfo, [ButtonState; GAMEPAD_BUTTON_COUNT])| (pad.0@, pad.1@));
        assert(source == before);
        let count = remaining.len();
        assert(before.len() == count);
        while remaining.len() > 0
            invariant
                before.len() <= usize::MAX,
                i + remaining@.len() == before.len(),
                remaining@.map_values(|pad: (GamepadDeviceInfo, [ButtonState; GAMEPAD_BUTTON_COUNT])| (pad.0@, pad.1@)) == before.skip(i as int),
                advanced@.len() == i,
                forall|g: int|
                    0 <= g < i ==> (#[trigger] advanced@[g]).0@ == before[g].0 && all_advanced(before[g].1, advanced@[g].1@),
            decreases remaining@.len(),
        {
            let ghost rest = remaining@.map_values(|pad: (GamepadDeviceInfo, [ButtonState; GAMEPAD_BUTTON_COUNT])| (pad.0@, pad.1@));
            let (info, buttons) = remaining.remove(0);
            assert(info@ == rest[0].0 && buttons@ == rest[0].1);
            assert(rest[0] == before[i as int]);
            advanced.push((info, advance_all(buttons)));
            assert(remaining@.map_values(|pad: (GamepadDeviceInfo, [ButtonState; GAMEPAD_BUTTON_COUNT])| (pad.0@, pad.1@)) =~= rest.drop_first());
            assert(rest.drop_first() =~= before.skip(i + 1));
            i = i + 1;
        }
        let ghost result = advanced@.map_values(|pad: (GamepadDeviceInfo, [ButtonState; GAMEPAD_BUTTON_COUNT])| (pad.0@, pad.1@));
        proof {
            assert forall|g: int, h: int| 0 <= g < h < result.len() implies (#[trigger] result[g]).0.id
                != (#[trigger] result[h]).0.id by {
                assert(result[g].0 == before[g].0);
                assert(result[h].0 == before[h].0);
            }
            assert forall|g: int| 0 <= g < result.len() implies (#[trigger] result[g]).1.len() == GAMEPAD_BUTTON_COUNT by {
                assert(before[g].1.len() == GAMEPAD_BUTTON_COUNT);
            }
        }
        self.gamepads = advanced;
        self.touches = Vec::new();
        self.events = Vec::new();
        assert(self@.touches =~= Seq::<Touch>::empty());
        assert(self@.events =~= Seq::<GamepadConnectionEventView>::empty());
    }
}

/// Every button but the one in `slot` is idle.
pub open spec fn idle_except(states: Seq<ButtonState>, slot: int) -> bool {
    forall|i: int| 0 <= i < states.len() && i != slot ==> idle(#[trigger] states[i])
}

} // verus!
