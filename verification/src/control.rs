use vstd::prelude::*;

use crate::input::{gamepad_button_slot, key_slot, ButtonState, GamepadButton, GamepadId, Key};
use crate::input_state::{InputState, InputView};
use crate::text_eq::str_equal;

verus! {

/// Stable name of one game action.
#[derive(Debug, Clone, Copy, PartialEq, Eq, Hash)]
pub struct ActionId(&'static str);

impl View for ActionId {
    type V = Seq<char>;

    closed spec fn view(&self) -> Seq<char> {
        self.0@
    }
}

impl ActionId {
    pub fn new(id: &'static str) -> (action: Self)
        ensures
            action@ == id@,
    {
        ActionId(id)
    }

    pub fn as_str(self) -> (id: &'static str)
        ensures
            id@ == self@,
    {
        self.0
    }
}

/// A physical input that can drive an action.
#[derive(Debug, Clone, Copy, PartialEq, Eq, Hash, Structural)]
pub enum ControlBinding {
    Key(Key),
    Gamepad(GamepadButton),
    GamepadDevice(GamepadId, GamepadButton),
}

/// No action appears twice in the table.
pub open spec fn table_unique<V>(entries: Seq<(ActionId, V)>) -> bool {
    forall|i: int, j: int|
        0 <= i < j < entries.len() ==> (#[trigger] entries[i]).0@ != (#[trigger] entries[j]).0@
}

/// The value stored for `action`, if any.
pub open spec fn table_get<V>(entries: Seq<(ActionId, V)>, action: Seq<char>) -> Option<V> {
    if exists|i: int| 0 <= i < entries.len() && (#[trigger] entries[i]).0@ == action {
        Some(entries[choose|i: int| 0 <= i < entries.len() && (#[trigger] entries[i]).0@ == action].1)
    } else {
        None
    }
}

proof fn lemma_table_get_at<V>(entries: Seq<(ActionId, V)>, i: int)
    requires
        table_unique(entries),
        0 <= i < entries.len(),
    ensures
        table_get(entries, entries[i].0@) == Some(entries[i].1),
{
    let action = entries[i].0@;
    let k = choose|k: int| 0 <= k < entries.len() && (#[trigger] entries[k]).0@ == action;
    if k != i {
        if k < i {
            assert(entries[k].0@ != entries[i].0@);
        } else {
            assert(entries[i].0@ != entries[k].0@);
        }
    }
}


proof fn lemma_table_absent<V>(entries: Seq<(ActionId, V)>, action: Seq<char>)
    requires
        forall|j: int| 0 <= j < entries.len() ==> (#[trigger] entries[j]).0@ != action,
    ensures
        table_get(entries, action) is None,
{
}

proof fn lemma_table_push<V>(entries: Seq<(ActionId, V)>, entry: (ActionId, V))
    requires
        table_unique(entries),
        forall|j: int| 0 <= j < entries.len() ==> (#[trigger] entries[j]).0@ != entry.0@,
    ensures
        table_unique(entries.push(entry)),
        forall|action: Seq<char>|
            #[trigger] table_get(entries.push(entry), action) == if action == entry.0@ {
                Some(entry.1)
            } else {
                table_get(entries, action)
            },
{
    let pushed = entries.push(entry);
    assert forall|a: int, b: int| 0 <= a < b < pushed.len() implies (#[trigger] pushed[a]).0@ != (
    #[trigger] pushed[b]).0@ by {
        if b < entries.len() {
            assert(entries[a].0@ != entries[b].0@);
        } else {
            assert(pushed[a] == entries[a]);
        }
    }
    assert forall|action: Seq<char>| #[trigger] table_get(pushed, action) == if action == entry.0@ {
        Some(entry.1)
    } else {
        table_get(entries, action)
    } by {
        if action == entry.0@ {
            lemma_table_get_at(pushed, entries.len() as int);
        } else if exists|j: int| 0 <= j < entries.len() && (#[trigger] entries[j]).0@ == action {
            let j = choose|j: int| 0 <= j < entries.len() && (#[trigger] entries[j]).0@ == action;
            lemma_table_get_at(pushed, j);
            lemma_table_get_at(entries, j);
        } else {
            assert forall|j: int| 0 <= j < pushed.len() implies (#[trigger] pushed[j]).0@ != action by {
                if j < entries.len() {
                    assert(pushed[j] == entries[j]);
                }
            }
        }
    }
}

proof fn lemma_table_remove<V>(entries: Seq<(ActionId, V)>, i: int)
    requires
        table_unique(entries),
        0 <= i < entries.len(),
    ensures
        table_unique(entries.remove(i)),
        forall|action: Seq<char>|
            #[trigger] table_get(entries.remove(i), action) == if action == entries[i].0@ {
                None
            } else {
                table_get(entries, action)
            },
{
    let removed = entries.remove(i);
    assert forall|a: int, b: int| 0 <= a < b < removed.len() implies (#[trigger] removed[a]).0@ != (
    #[trigger] removed[b]).0@ by {
        let a2 = if a < i { a } else { a + 1 };
        let b2 = if b < i { b } else { b + 1 };
        assert(removed[a] == entries[a2]);
        assert(removed[b] == entries[b2]);
        assert(entries[a2].0@ != entries[b2].0@);
    }
    assert forall|action: Seq<char>| #[trigger] table_get(removed, action) == if action
        == entries[i].0@ {
        None
    } else {
        table_get(entries, action)
    } by {
        if action == entries[i].0@ {
            assert forall|j: int| 0 <= j < removed.len() implies (#[trigger] removed[j]).0@ != action by {
                let j2 = if j < i { j } else { j + 1 };
                assert(removed[j] == entries[j2]);
                if j2 < i {
                    assert(entries[j2].0@ != entries[i].0@);
                } else {
                    assert(entries[i].0@ != entries[j2].0@);
                }
            }
        } else if exists|j: int| 0 <= j < entries.len() && (#[trigger] entries[j]).0@ == action {
            let j = choose|j: int| 0 <= j < entries.len() && (#[trigger] entries[j]).0@ == action;
            let j1 = if j < i { j } else { j - 1 };
            assert(removed[j1] == entries[j]);
            lemma_table_get_at(removed, j1);
            lemma_table_get_at(entries, j);
        } else {
            assert forall|j: int| 0 <= j < removed.len() implies (#[trigger] removed[j]).0@ != action by {
                let j2 = if j < i { j } else { j + 1 };
                assert(removed[j] == entries[j2]);
            }
        }
    }
}

/// After the slot of `action` is taken out, no slot names it.
proof fn lemma_table_remove_absent<V>(entries: Seq<(ActionId, V)>, index: Option<usize>, action: Seq<char>)
    requires
        table_unique(entries),
        index matches Some(i) ==> i < entries.len() && entries[i as int].0@ == action,
        index is None ==> forall|j: int| 0 <= j < entries.len() ==> (#[trigger] entries[j]).0@ != action,
    ensures
        index matches Some(i) ==> forall|j: int|
            0 <= j < entries.remove(i as int).len() ==> (#[trigger] entries.remove(i as int)[j]).0@
                != action,
        index matches Some(i) ==> table_unique(entries.remove(i as int)),
        index matches Some(i) ==> forall|other: Seq<char>|
            other != action ==> #[trigger] table_get(entries.remove(i as int), other) == table_get(
                entries,
                other,
            ),
{
    match index {
        Some(i) => {
            lemma_table_remove(entries, i as int);
            let removed = entries.remove(i as int);
            assert forall|j: int| 0 <= j < removed.len() implies (#[trigger] removed[j]).0@ != action by {
                let j2 = if j < i { j } else { j + 1 };
                assert(removed[j] == entries[j2]);
                if j2 < i {
                    assert(entries[j2].0@ != entries[i as int].0@);
                } else {
                    assert(entries[i as int].0@ != entries[j2].0@);
                }
            }
        },
        None => {},
    }
}

fn table_find<V>(entries: &Vec<(ActionId, V)>, action: ActionId) -> (index: Option<usize>)
    ensures
        match index {
            Some(i) => i < entries@.len() && entries@[i as int].0@ == action@,
            None => forall|j: int| 0 <= j < entries@.len() ==> (#[trigger] entries@[j]).0@ != action@,
        },
{
    let mut i: usize = 0;
    while i < entries.len()
        invariant
            i <= entries@.len(),
            forall|j: int| 0 <= j < i ==> (#[trigger] entries@[j]).0@ != action@,
        decreases entries@.len() - i,
    {
        if str_equal(entries[i].0.as_str(), action.as_str()) {
            return Some(i);
        }
        i = i + 1;
    }
    None
}

/// What a control map knows about one action.
#[derive(Debug)]
pub struct ActionSlot {
    pub bindings: Option<Vec<ControlBinding>>,
    pub state: Option<ButtonState>,
    pub virtual_held: Option<bool>,
}

/// Named actions driven by keyboard, gamepad and virtual sources, with per-frame
/// pressed/held/released state.
#[derive(Debug)]
pub struct ControlMap {
    actions: Vec<(ActionId, ActionSlot)>,
}

/// The bindings of an action after `binding` is added to `bindings`.
pub open spec fn bound_after(bindings: Option<Seq<ControlBinding>>, binding: ControlBinding) -> Seq<
    ControlBinding,
> {
    match bindings {
        Some(list) => if list.contains(binding) {
            list
        } else {
            list.push(binding)
        },
        None => seq![binding],
    }
}

/// Whether a binding is among the held inputs.
pub open spec fn binding_held(held: Seq<ControlBinding>, binding: ControlBinding) -> bool {
    held.contains(binding)
}

/// Whether one of `bindings` is among the held inputs.
pub open spec fn any_binding_held(bindings: Seq<ControlBinding>, held: Seq<ControlBinding>) -> bool {
    exists|i: int| 0 <= i < bindings.len() && binding_held(held, #[trigger] bindings[i])
}

impl ControlMap {
    /// No action has two slots.
    pub closed spec fn wf(self) -> bool {
        table_unique(self.actions@)
    }

    /// The bindings of `action`, if it has an entry.
    pub closed spec fn spec_bindings(self, action: Seq<char>) -> Option<Seq<ControlBinding>> {
        match table_get(self.actions@, action) {
            Some(slot) => match slot.bindings {
                Some(list) => Some(list@),
                None => None,
            },
            None => None,
        }
    }

    /// The last computed state of `action`, if any.
    pub closed spec fn spec_state(self, action: Seq<char>) -> Option<ButtonState> {
        match table_get(self.actions@, action) {
            Some(slot) => slot.state,
            None => None,
        }
    }

    /// The virtual source of `action`, if one was set.
    pub closed spec fn spec_virtual(self, action: Seq<char>) -> Option<bool> {
        match table_get(self.actions@, action) {
            Some(slot) => slot.virtual_held,
            None => None,
        }
    }

    /// Whether `action` has bindings, a state or a virtual source.
    pub open spec fn tracks(self, action: Seq<char>) -> bool {
        self.spec_bindings(action) is Some || self.spec_state(action) is Some || self.spec_virtual(
            action,
        ) is Some
    }

    /// Whether `action` is held now: by its virtual source or by one of its bindings.
    pub open spec fn held_now(self, held: Seq<ControlBinding>, action: Seq<char>) -> bool {
        self.spec_virtual(action) == Some(true) || (self.spec_bindings(action) matches Some(list)
            && any_binding_held(list, held))
    }

    /// The state `action` gets from an update while the bindings in `held` are held.
    pub open spec fn next_state(self, held: Seq<ControlBinding>, action: Seq<char>) -> ButtonState {
        ButtonState::transition(
            self.spec_state(action) matches Some(s) && s.is_held(),
            self.held_now(held, action),
        )
    }

    pub fn new() -> (map: Self)
        ensures
            map.wf(),
            forall|action: Seq<char>| !(#[trigger] map.tracks(action)),
    {
        ControlMap { actions: Vec::new() }
    }

    /// Takes the slot of `action` out of the table, or makes an empty one.
    fn take_slot(&mut self, action: ActionId) -> (taken: (Option<usize>, ActionSlot))
        requires
            old(self).wf(),
        ensures
            final(self).wf(),
            match taken.0 {
                Some(index) => {
                    &&& index < old(self).actions@.len()
                    &&& old(self).actions@[index as int].0@ == action@
                    &&& final(self).actions@ == old(self).actions@.remove(index as int)
                    &&& taken.1 == old(self).actions@[index as int].1
                },
                None => {
                    &&& final(self).actions@ == old(self).actions@
                    &&& forall|j: int|
                        0 <= j < old(self).actions@.len() ==> (#[trigger] old(
                            self,
                        ).actions@[j]).0@ != action@
                    &&& taken.1.bindings is None
                    &&& taken.1.state is None
                    &&& taken.1.virtual_held is None
                },
            },
    {
        match table_find(&self.actions, action) {
            Some(index) => {
                let ghost old_entries = self.actions@;
                let entry = self.actions.remove(index);
                proof {
                    lemma_table_remove(old_entries, index as int);
                }
                (Some(index), entry.1)
            },
            None => (None, ActionSlot { bindings: None, state: None, virtual_held: None }),
        }
    }

    /// Puts back a slot taken by `take_slot`.
    fn put_slot(&mut self, action: ActionId, index: Option<usize>, slot: ActionSlot)
        requires
            table_unique(old(self).actions@),
            forall|j: int| 0 <= j < old(self).actions@.len() ==> (#[trigger] old(self).actions@[j]).0@ != action@,
            index matches Some(i) ==> i <= old(self).actions@.len(),
        ensures
            final(self).wf(),
            forall|other: Seq<char>|
                #[trigger] table_get(final(self).actions@, other) == if other == action@ {
                    Some(slot)
                } else {
                    table_get(old(self).actions@, other)
                },
    {
        let ghost old_entries = self.actions@;
        match index {
            Some(i) => {
                self.actions.insert(i, (action, slot));
                proof {
                    let inserted = self.actions@;
                    assert(inserted == old_entries.insert(i as int, (action, slot)));
                    assert forall|a: int, b: int| 0 <= a < b < inserted.len() implies (
                    #[trigger] inserted[a]).0@ != (#[trigger] inserted[b]).0@ by {
                        let a2 = if a < i { a } else { a - 1 };
                        let b2 = if b < i { b } else { b - 1 };
                        if a != i && b != i {
                            assert(inserted[a] == old_entries[a2]);
                            assert(inserted[b] == old_entries[b2]);
                        } else if a == i {
                            assert(inserted[b] == old_entries[b2]);
                        } else {
                            assert(inserted[a] == old_entries[a2]);
                        }
                    }
                    assert forall|other: Seq<char>| #[trigger] table_get(inserted, other) == if other
                        == action@ {
                        Some(slot)
                    } else {
                        table_get(old_entries, other)
                    } by {
                        if other == action@ {
                            lemma_table_get_at(inserted, i as int);
                        } else if exists|j: int| 0 <= j < old_entries.len() && (#[trigger] old_entries[j]).0@ == other {
                            let j = choose|j: int| 0 <= j < old_entries.len() && (#[trigger] old_entries[j]).0@ == other;
                            let j2 = if j < i { j } else { j + 1 };
                            assert(inserted[j2] == old_entries[j]);
                            lemma_table_get_at(inserted, j2);
                            lemma_table_get_at(old_entries, j);
                        } else {
                            assert forall|j: int| 0 <= j < inserted.len() implies (#[trigger] inserted[j]).0@ != other by {
                                if j < i {
                                    assert(inserted[j] == old_entries[j]);
                                } else if j > i {
                                    assert(inserted[j] == old_entries[j - 1]);
                                }
                            }
                        }
                    }
                }
            },
            None => {
                self.actions.push((action, slot));
                proof {
                    lemma_table_push(old_entries, (action, slot));
                }
            },
        }
    }

    /// Adds `binding` to `action` unless it is bound already; the action gets an entry
    /// either way.
    pub fn bind(&mut self, action: ActionId, binding: ControlBinding) -> (map: &mut Self)
        requires
            old(self).wf(),
        ensures
            map.wf(),
            map.spec_bindings(action@) == Some(bound_after(old(self).spec_bindings(action@), binding)),
            forall|other: Seq<char>|
                other != action@ ==> #[trigger] map.spec_bindings(other) == old(self).spec_bindings(
                    other,
                ),
            forall|other: Seq<char>| #[trigger] map.spec_state(other) == old(self).spec_state(other),
            forall|other: Seq<char>|
                #[trigger] map.spec_virtual(other) == old(self).spec_virtual(other),
            *final(self) == *final(map),
    {
        let ghost old_entries = self.actions@;
        let (index, mut slot) = self.take_slot(action);
        proof {
            match index {
                Some(i) => lemma_table_get_at(old_entries, i as int),
                None => lemma_table_absent(old_entries, action@),
            }
            lemma_table_remove_absent(old_entries, index, action@);
        }
        let taken = slot.bindings.take();
        let bindings = match taken {
            Some(mut list) => {
                let mut present = false;
                let mut k: usize = 0;
                while k < list.len()
                    invariant
                        k <= list@.len(),
                        present == exists|j: int| 0 <= j < k && list@[j] == binding,
                    decreases list@.len() - k,
                {
                    if list[k] == binding {
                        present = true;
                    }
                    k = k + 1;
                }
                let ghost before = list@;
                if !present {
                    list.push(binding);
                }
                assert(before.contains(binding) == present);
                list
            },
            None => {
                let mut list: Vec<ControlBinding> = Vec::new();
                list.push(binding);
                assert(list@ =~= seq![binding]);
                list
            },
        };
        slot.bindings = Some(bindings);
        self.put_slot(action, index, slot);
        self
    }

    pub fn bind_key(&mut self, action: ActionId, key: Key) -> (map: &mut Self)
        requires
            old(self).wf(),
        ensures
            map.wf(),
            map.spec_bindings(action@) == Some(
                bound_after(old(self).spec_bindings(action@), ControlBinding::Key(key)),
            ),
            forall|other: Seq<char>|
                other != action@ ==> #[trigger] map.spec_bindings(other) == old(self).spec_bindings(
                    other,
                ),
            forall|other: Seq<char>| #[trigger] map.spec_state(other) == old(self).spec_state(other),
            forall|other: Seq<char>|
                #[trigger] map.spec_virtual(other) == old(self).spec_virtual(other),
            *final(self) == *final(map),
    {
        self.bind(action, ControlBinding::Key(key))
    }

    pub fn bind_gamepad(&mut self, action: ActionId, button: GamepadButton) -> (map: &mut Self)
        requires
            old(self).wf(),
        ensures
            map.wf(),
            map.spec_bindings(action@) == Some(
                bound_after(old(self).spec_bindings(action@), ControlBinding::Gamepad(button)),
            ),
            forall|other: Seq<char>|
                other != action@ ==> #[trigger] map.spec_bindings(other) == old(self).spec_bindings(
                    other,
                ),
            forall|other: Seq<char>| #[trigger] map.spec_state(other) == old(self).spec_state(other),
            forall|other: Seq<char>|
                #[trigger] map.spec_virtual(other) == old(self).spec_virtual(other),
            *final(self) == *final(map),
    {
        self.bind(action, ControlBinding::Gamepad(button))
    }

    pub fn bind_gamepad_device(
        &mut self,
        action: ActionId,
        gamepad_id: GamepadId,
        button: GamepadButton,
    ) -> (map: &mut Self)
        requires
            old(self).wf(),
        ensures
            map.wf(),
            map.spec_bindings(action@) == Some(
                bound_after(
                    old(self).spec_bindings(action@),
                    ControlBinding::GamepadDevice(gamepad_id, button),
                ),
            ),
            forall|other: Seq<char>|
                other != action@ ==> #[trigger] map.spec_bindings(other) == old(self).spec_bindings(
                    other,
                ),
            forall|other: Seq<char>| #[trigger] map.spec_state(other) == old(self).spec_state(other),
            forall|other: Seq<char>|
                #[trigger] map.spec_virtual(other) == old(self).spec_virtual(other),
            *final(self) == *final(map),
    {
        self.bind(action, ControlBinding::GamepadDevice(gamepad_id, button))
    }

    /// Removes every binding of `action`.
    pub fn clear_bindings(&mut self, action: ActionId) -> (map: &mut Self)
        requires
            old(self).wf(),
        ensures
            map.wf(),
            map.spec_bindings(action@) is None,
            forall|other: Seq<char>|
                other != action@ ==> #[trigger] map.spec_bindings(other) == old(self).spec_bindings(
                    other,
                ),
            forall|other: Seq<char>| #[trigger] map.spec_state(other) == old(self).spec_state(other),
            forall|other: Seq<char>|
                #[trigger] map.spec_virtual(other) == old(self).spec_virtual(other),
            *final(self) == *final(map),
    {
        let ghost old_entries = self.actions@;
        let (index, mut slot) = self.take_slot(action);
        proof {
            match index {
                Some(i) => lemma_table_get_at(old_entries, i as int),
                None => lemma_table_absent(old_entries, action@),
            }
            lemma_table_remove_absent(old_entries, index, action@);
        }
        if index.is_some() {
            slot.bindings = None;
            self.put_slot(action, index, slot);
        }
        self
    }

    /// Sets whether a virtual source (such as an on-screen control) holds `action`.
    pub fn set_virtual(&mut self, action: ActionId, held: bool)
        requires
            old(self).wf(),
        ensures
            final(self).wf(),
            final(self).spec_virtual(action@) == Some(held),
            forall|other: Seq<char>|
                other != action@ ==> #[trigger] final(self).spec_virtual(other) == old(
                    self,
                ).spec_virtual(other),
            forall|other: Seq<char>|
                #[trigger] final(self).spec_bindings(other) == old(self).spec_bindings(other),
            forall|other: Seq<char>|
                #[trigger] final(self).spec_state(other) == old(self).spec_state(other),
    {
        let ghost old_entries = self.actions@;
        let (index, mut slot) = self.take_slot(action);
        proof {
            match index {
                Some(i) => lemma_table_get_at(old_entries, i as int),
                None => lemma_table_absent(old_entries, action@),
            }
            lemma_table_remove_absent(old_entries, index, action@);
        }
        slot.virtual_held = Some(held);
        self.put_slot(action, index, slot);
    }

    /// Releases every virtual source.
    pub fn clear_virtual(&mut self)
        requires
            old(self).wf(),
        ensures
            final(self).wf(),
            forall|other: Seq<char>|
                #[trigger] final(self).spec_virtual(other) == match old(self).spec_virtual(other) {
                    Some(_) => Some(false),
                    None => None::<bool>,
                },
            forall|other: Seq<char>|
                #[trigger] final(self).spec_bindings(other) == old(self).spec_bindings(other),
            forall|other: Seq<char>|
                #[trigger] final(self).spec_state(other) == old(self).spec_state(other),
    {
        let ghost old_entries = self.actions@;
        let mut i: usize = 0;
        while i < self.actions.len()
            invariant
                i <= self.actions@.len(),
                old_entries == old(self).actions@,
                table_unique(old_entries),
                self.actions@.len() == old_entries.len(),
                forall|j: int|
                    0 <= j < old_entries.len() ==> (#[trigger] self.actions@[j]).0 == old_entries[j].0
                        && self.actions@[j].1.bindings == old_entries[j].1.bindings
                        && self.actions@[j].1.state == old_entries[j].1.state,
                forall|j: int|
                    0 <= j < i ==> (#[trigger] self.actions@[j]).1.virtual_held == match old_entries[j].1.virtual_held {
                        Some(_) => Some(false),
                        None => None::<bool>,
                    },
                forall|j: int|
                    i <= j < old_entries.len() ==> (#[trigger] self.actions@[j]).1.virtual_held
                        == old_entries[j].1.virtual_held,
            decreases old_entries.len() - i,
        {
            if self.actions[i].1.virtual_held.is_some() {
                self.actions[i].1.virtual_held = Some(false);
            }
            i = i + 1;
        }
        proof {
            let entries = self.actions@;
            assert forall|a: int, b: int| 0 <= a < b < entries.len() implies (#[trigger] entries[a]).0@
                != (#[trigger] entries[b]).0@ by {
                assert(old_entries[a].0@ != old_entries[b].0@);
            }
            assert forall|other: Seq<char>| #[trigger] table_get(entries, other) is Some == table_get(
                old_entries,
                other,
            ) is Some && (table_get(entries, other) matches Some(slot) ==> {
                let old_slot = table_get(old_entries, other)->0;
                &&& slot.bindings == old_slot.bindings
                &&& slot.state == old_slot.state
                &&& slot.virtual_held == match old_slot.virtual_held {
                    Some(_) => Some(false),
                    None => None::<bool>,
                }
            }) by {
                if exists|j: int| 0 <= j < old_entries.len() && (#[trigger] old_entries[j]).0@ == other {
                    let j = choose|j: int| 0 <= j < old_entries.len() && (#[trigger] old_entries[j]).0@ == other;
                    lemma_table_get_at(old_entries, j);
                    lemma_table_get_at(entries, j);
                } else {
                    assert forall|j: int| 0 <= j < entries.len() implies (#[trigger] entries[j]).0@ != other by {
                        assert(entries[j].0 == old_entries[j].0);
                    }
                }
            }
        }
    }

    /// The state of `action` computed by the last update; an action never updated is
    /// neither pressed, held nor released.
    pub fn action(&self, action: ActionId) -> (state: ButtonState)
        requires
            self.wf(),
        ensures
            match self.spec_state(action@) {
                Some(s) => state == s,
                None => !state.is_pressed() && !state.is_held() && !state.is_released(),
            },
    {
        match table_find(&self.actions, action) {
            Some(index) => {
                proof {
                    lemma_table_get_at(self.actions@, index as int);
                }
                match self.actions[index].1.state {
                    Some(state) => state,
                    None => ButtonState::default(),
                }
            },
            None => {
                proof {
                    lemma_table_absent(self.actions@, action@);
                }
                ButtonState::default()
            },
        }
    }

}

/// The state a slot's action gets from an update while the bindings in `held` are held:
/// unchanged when the slot tracks nothing, else the transition from its last held state.
pub open spec fn slot_next_state(slot: ActionSlot, held: Seq<ControlBinding>) -> Option<ButtonState> {
    if slot.bindings is None && slot.state is None && slot.virtual_held is None {
        None
    } else {
        Some(
            ButtonState::transition(
                slot.state matches Some(s) && s.is_held(),
                slot.virtual_held == Some(true) || (slot.bindings matches Some(list)
                    && any_binding_held(list@, held)),
            ),
        )
    }
}

fn any_held(list: &Vec<ControlBinding>, held: &[ControlBinding]) -> (now: bool)
    ensures
        now == any_binding_held(list@, held@),
{
    let mut k: usize = 0;
    while k < list.len()
        invariant
            k <= list@.len(),
            forall|j: int| 0 <= j < k ==> !binding_held(held@, #[trigger] list@[j]),
        decreases list@.len() - k,
    {
        let binding = list[k];
        let mut m: usize = 0;
        while m < held.len()
            invariant
                m <= held@.len(),
                k < list@.len(),
                binding == list@[k as int],
                forall|n: int| 0 <= n < m ==> held@[n] != binding,
            decreases held@.len() - m,
        {
            if held[m] == binding {
                assert(held@[m as int] == binding);
                assert(binding_held(held@, list@[k as int]));
                return true;
            }
            m = m + 1;
        }
        assert(!binding_held(held@, list@[k as int]));
        k = k + 1;
    }
    false
}

fn next_slot_state(slot: &ActionSlot, held: &[ControlBinding]) -> (state: Option<ButtonState>)
    ensures
        state == slot_next_state(*slot, held@),
{
    if slot.bindings.is_none() && slot.state.is_none() && slot.virtual_held.is_none() {
        return None;
    }
    let was = match slot.state {
        Some(state) => state.held(),
        None => false,
    };
    let virtual_held = match slot.virtual_held {
        Some(held) => held,
        None => false,
    };
    let physical = match &slot.bindings {
        Some(list) => any_held(list, held),
        None => false,
    };
    Some(ButtonState::from_transition(was, virtual_held || physical))
}

impl ControlMap {
    /// Recomputes the state of every tracked action from its virtual source and from
    /// which of the bindings in `held` are held.
    pub fn update_held(&mut self, held: &[ControlBinding])
        requires
            old(self).wf(),
        ensures
            final(self).wf(),
            forall|action: Seq<char>|
                #[trigger] final(self).spec_state(action) == if old(self).tracks(action) {
                    Some(old(self).next_state(held@, action))
                } else {
                    None::<ButtonState>
                },
            forall|action: Seq<char>|
                #[trigger] final(self).spec_bindings(action) == old(self).spec_bindings(action),
            forall|action: Seq<char>|
                #[trigger] final(self).spec_virtual(action) == old(self).spec_virtual(action),
    {
        let ghost old_entries = self.actions@;
        let mut i: usize = 0;
        while i < self.actions.len()
            invariant
                i <= self.actions@.len(),
                old_entries == old(self).actions@,
                table_unique(old_entries),
                self.actions@.len() == old_entries.len(),
                forall|j: int|
                    0 <= j < old_entries.len() ==> (#[trigger] self.actions@[j]).0 == old_entries[j].0
                        && self.actions@[j].1.bindings == old_entries[j].1.bindings
                        && self.actions@[j].1.virtual_held == old_entries[j].1.virtual_held,
                forall|j: int|
                    0 <= j < i ==> (#[trigger] self.actions@[j]).1.state == slot_next_state(
                        old_entries[j].1,
                        held@,
                    ),
                forall|j: int|
                    i <= j < old_entries.len() ==> (#[trigger] self.actions@[j]).1.state
                        == old_entries[j].1.state,
            decreases old_entries.len() - i,
        {
            let next = next_slot_state(&self.actions[i].1, held);
            self.actions[i].1.state = next;
            i = i + 1;
        }
        proof {
            let entries = self.actions@;
            assert forall|a: int, b: int| 0 <= a < b < entries.len() implies (#[trigger] entries[a]).0@
                != (#[trigger] entries[b]).0@ by {
                assert(old_entries[a].0@ != old_entries[b].0@);
            }
            assert forall|other: Seq<char>| #[trigger] table_get(entries, other) is Some == table_get(
                old_entries,
                other,
            ) is Some && (table_get(entries, other) matches Some(slot) ==> {
                let old_slot = table_get(old_entries, other)->0;
                &&& slot.bindings == old_slot.bindings
                &&& slot.virtual_held == old_slot.virtual_held
                &&& slot.state == slot_next_state(old_slot, held@)
            }) by {
                if exists|j: int| 0 <= j < old_entries.len() && (#[trigger] old_entries[j]).0@ == other {
                    let j = choose|j: int| 0 <= j < old_entries.len() && (#[trigger] old_entries[j]).0@ == other;
                    lemma_table_get_at(old_entries, j);
                    lemma_table_get_at(entries, j);
                } else {
                    assert forall|j: int| 0 <= j < entries.len() implies (#[trigger] entries[j]).0@ != other by {
                        assert(entries[j].0 == old_entries[j].0);
                    }
                }
            }
            assert forall|other: Seq<char>| #[trigger] self.spec_state(other) == if old(self).tracks(other) {
                Some(old(self).next_state(held@, other))
            } else {
                None::<ButtonState>
            } by {
                assert(table_get(entries, other) is Some == table_get(old_entries, other) is Some);
                match table_get(old_entries, other) {
                    Some(old_slot) => {
                        let slot = table_get(entries, other)->0;
                        assert(slot.state == slot_next_state(old_slot, held@));
                        assert(old(self).spec_state(other) == old_slot.state);
                        assert(old(self).spec_virtual(other) == old_slot.virtual_held);
                        assert(old(self).spec_bindings(other) is Some == old_slot.bindings is Some);
                        if old_slot.bindings is Some {
                            assert(old(self).spec_bindings(other) == Some(old_slot.bindings->0@));
                        }
                        assert(self.spec_state(other) == slot.state);
                        assert(old(self).tracks(other) == !(old_slot.bindings is None && old_slot.state is None && old_slot.virtual_held is None));
                    },
                    None => {
                        assert(self.spec_state(other) is None);
                        assert(!old(self).tracks(other));
                    },
                }
            }
        }
    }
}


/// Whether the input of this frame holds `binding`: its key, that button on any
/// connected gamepad, or that button on the named gamepad.
pub open spec fn input_holds(input: InputView, binding: ControlBinding) -> bool {
    match binding {
        ControlBinding::Key(key) => input.keys[key_slot(key)].is_held(),
        ControlBinding::Gamepad(button) => exists|g: int|
            0 <= g < input.gamepads.len() && (#[trigger] input.gamepads[g]).1[gamepad_button_slot(
                button,
            )].is_held(),
        ControlBinding::GamepadDevice(id, button) => match input.gamepad(id) {
            Some(pad) => pad.1[gamepad_button_slot(button)].is_held(),
            None => false,
        },
    }
}

/// Whether the input of this frame holds one of `bindings`.
pub open spec fn any_binding_input_held(bindings: Seq<ControlBinding>, input: InputView) -> bool {
    exists|i: int| 0 <= i < bindings.len() && input_holds(input, #[trigger] bindings[i])
}

fn binding_is_held(input: &InputState, binding: ControlBinding) -> (held: bool)
    ensures
        held == input_holds(input@, binding),
{
    match binding {
        ControlBinding::Key(key) => input.key(key).held(),
        ControlBinding::Gamepad(button) => input.gamepad_button_any(button).held(),
        ControlBinding::GamepadDevice(id, button) => input.gamepad_button(id, button).held(),
    }
}

impl ControlMap {
    /// Whether `action` is held by the input of this frame: by its virtual source or by
    /// one of its bindings.
    pub open spec fn held_by_input(self, input: InputView, action: Seq<char>) -> bool {
        self.spec_virtual(action) == Some(true) || (self.spec_bindings(action) matches Some(list)
            && any_binding_input_held(list, input))
    }

    /// The state `action` gets from an update on the input of this frame.
    pub open spec fn next_input_state(self, input: InputView, action: Seq<char>) -> ButtonState {
        ButtonState::transition(
            self.spec_state(action) matches Some(s) && s.is_held(),
            self.held_by_input(input, action),
        )
    }

    /// The bindings of all actions that the input holds.
    fn held_bindings(&self, input: &InputState) -> (held: Vec<ControlBinding>)
        ensures
            forall|i: int| 0 <= i < held@.len() ==> input_holds(input@, #[trigger] held@[i]),
            forall|j: int, k: int|
                0 <= j < self.actions@.len() && (#[trigger] self.actions@[j]).1.bindings is Some && 0
                    <= k < self.actions@[j].1.bindings->0@.len() && input_holds(
                    input@,
                    #[trigger] self.actions@[j].1.bindings->0@[k],
                ) ==> held@.contains(self.actions@[j].1.bindings->0@[k]),
    {
        let mut held: Vec<ControlBinding> = Vec::new();
        let mut j: usize = 0;
        while j < self.actions.len()
            invariant
                j <= self.actions@.len(),
                forall|i: int| 0 <= i < held@.len() ==> input_holds(input@, #[trigger] held@[i]),
                forall|a: int, k: int|
                    0 <= a < j && (#[trigger] self.actions@[a]).1.bindings is Some && 0 <= k
                        < self.actions@[a].1.bindings->0@.len() && input_holds(
                        input@,
                        #[trigger] self.actions@[a].1.bindings->0@[k],
                    ) ==> held@.contains(self.actions@[a].1.bindings->0@[k]),
            decreases self.actions@.len() - j,
        {
            match &self.actions[j].1.bindings {
                Some(list) => {
                    let mut k: usize = 0;
                    while k < list.len()
                        invariant
                            j < self.actions@.len(),
                            self.actions@[j as int].1.bindings == Some(*list),
                            k <= list@.len(),
                            forall|i: int| 0 <= i < held@.len() ==> input_holds(input@, #[trigger] held@[i]),
                            forall|a: int, m: int|
                                0 <= a < j && (#[trigger] self.actions@[a]).1.bindings is Some && 0 <= m
                                    < self.actions@[a].1.bindings->0@.len() && input_holds(
                                    input@,
                                    #[trigger] self.actions@[a].1.bindings->0@[m],
                                ) ==> held@.contains(self.actions@[a].1.bindings->0@[m]),
                            forall|m: int|
                                0 <= m < k && input_holds(input@, #[trigger] list@[m]) ==> held@.contains(
                                    list@[m],
                                ),
                        decreases list@.len() - k,
                    {
                        let binding = list[k];
                        if binding_is_held(input, binding) {
                            let ghost before = held@;
                            held.push(binding);
                            proof {
                                assert(held@[before.len() as int] == binding);
                                assert forall|a: int, m: int|
                                    0 <= a < j && (#[trigger] self.actions@[a]).1.bindings is Some && 0 <= m
                                        < self.actions@[a].1.bindings->0@.len() && input_holds(
                                        input@,
                                        #[trigger] self.actions@[a].1.bindings->0@[m],
                                    ) implies held@.contains(self.actions@[a].1.bindings->0@[m]) by {
                                    let x = self.actions@[a].1.bindings->0@[m];
                                    let w = choose|w: int| 0 <= w < before.len() && before[w] == x;
                                    assert(held@[w] == x);
                                }
                                assert forall|m: int|
                                    0 <= m < k + 1 && input_holds(input@, #[trigger] list@[m]) implies held@.contains(
                                        list@[m],
                                    ) by {
                                    if m < k {
                                        let w = choose|w: int| 0 <= w < before.len() && before[w] == list@[m];
                                        assert(held@[w] == list@[m]);
                                    }
                                }
                            }
                        }
                        k = k + 1;
                    }
                    proof {
                        assert forall|a: int, m: int|
                            0 <= a < j + 1 && (#[trigger] self.actions@[a]).1.bindings is Some && 0 <= m
                                < self.actions@[a].1.bindings->0@.len() && input_holds(
                                input@,
                                #[trigger] self.actions@[a].1.bindings->0@[m],
                            ) implies held@.contains(self.actions@[a].1.bindings->0@[m]) by {
                            if a == j {
                                assert(self.actions@[a].1.bindings->0@[m] == list@[m]);
                            }
                        }
                    }
                },
                None => {},
            }
            j = j + 1;
        }
        held
    }

    /// Recomputes the state of every tracked action from its virtual source and from
    /// which of its bindings the input of this frame holds.
    pub fn update(&mut self, input: &InputState)
        requires
            old(self).wf(),
        ensures
            final(self).wf(),
            forall|action: Seq<char>|
                #[trigger] final(self).spec_state(action) == if old(self).tracks(action) {
                    Some(old(self).next_input_state(input@, action))
                } else {
                    None::<ButtonState>
                },
            forall|action: Seq<char>|
                #[trigger] final(self).spec_bindings(action) == old(self).spec_bindings(action),
            forall|action: Seq<char>|
                #[trigger] final(self).spec_virtual(action) == old(self).spec_virtual(action),
    {
        let held = self.held_bindings(input);
        proof {
            let entries = self.actions@;
            assert forall|action: Seq<char>| #[trigger] self.next_state(held@, action)
                == self.next_input_state(input@, action) by {
                if let Some(list) = self.spec_bindings(action) {
                    let j = choose|j: int| 0 <= j < entries.len() && (#[trigger] entries[j]).0@ == action;
                    assert(entries[j].1.bindings is Some);
                    assert(list == entries[j].1.bindings->0@);
                    if any_binding_held(list, held@) {
                        let i = choose|i: int| 0 <= i < list.len() && binding_held(held@, #[trigger] list[i]);
                        let w = choose|w: int| 0 <= w < held@.len() && held@[w] == list[i];
                        assert(input_holds(input@, held@[w]));
                        assert(input_holds(input@, list[i]));
                    }
                    if any_binding_input_held(list, input@) {
                        let i = choose|i: int| 0 <= i < list.len() && input_holds(input@, #[trigger] list[i]);
                        assert(entries[j].1.bindings->0@[i] == list[i]);
                        assert(held@.contains(list[i]));
                        assert(binding_held(held@, list[i]));
                    }
                }
            }
        }
        self.update_held(&held);
    }
}

} // verus!
