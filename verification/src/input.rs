//! The input state: which keys and mouse buttons are held down, and where
//! the cursor was last seen.
//!
//! The state is a pair of finite maps from identifier to `ElementState` plus
//! one cursor position. An identifier that was never recorded is released.

use vstd::prelude::*;

verus! {

/// Whether a key or a mouse button is held down.
#[derive(Debug, Clone, Copy, PartialEq, Eq, Structural)]
pub enum ElementState {
    Pressed,
    Released,
}

/// A keyboard key, named by the number that the windowing layer gives to its
/// virtual key code.
#[derive(Debug, Clone, Copy, PartialEq, Eq, Structural)]
pub struct KeyCode(pub u32);

/// A button of a mouse.
#[derive(Debug, Clone, Copy, PartialEq, Eq, Structural)]
pub enum MouseButton {
    Left,
    Right,
    Middle,
    Other(u16),
}

/// A cursor position in window pixels.
///
/// Each coordinate is carried as the bit pattern of an IEEE-754
/// single-precision number, so that a position passes through the input
/// state unchanged, bit for bit. The all-zero pattern is `+0.0`.
#[derive(Debug, Clone, Copy, PartialEq, Eq, Structural)]
pub struct CursorPosition {
    pub x_bits: u32,
    pub y_bits: u32,
}

/// One recorded key with its last known state.
#[derive(Debug, Clone, Copy, PartialEq, Eq, Structural)]
pub struct Key {
    pub code: KeyCode,
    pub state: ElementState,
}

/// One recorded mouse button with its last known state.
#[derive(Debug, Clone, Copy, PartialEq, Eq, Structural)]
pub struct MouseBtn {
    pub button: MouseButton,
    pub state: ElementState,
}

/// One call of a setter of the input state, with its arguments.
pub enum Change {
    Key(KeyCode, ElementState),
    Button(MouseButton, ElementState),
    Cursor(u32, u32),
}

/// The mathematical content of an `Input`.
pub struct InputView {
    pub keys: Map<KeyCode, ElementState>,
    pub buttons: Map<MouseButton, ElementState>,
    pub cursor: CursorPosition,
}

impl InputView {
    /// The state before any event: nothing recorded, cursor at the origin.
    pub open spec fn empty() -> InputView {
        InputView {
            keys: Map::empty(),
            buttons: Map::empty(),
            cursor: CursorPosition { x_bits: 0, y_bits: 0 },
        }
    }

    /// The state after `code` has been recorded as `state`.
    pub open spec fn with_key(self, code: KeyCode, state: ElementState) -> InputView {
        InputView { keys: self.keys.insert(code, state), ..self }
    }

    /// The state after `button` has been recorded as `state`.
    pub open spec fn with_button(self, button: MouseButton, state: ElementState) -> InputView {
        InputView { buttons: self.buttons.insert(button, state), ..self }
    }

    /// The state after the cursor has been seen at the given coordinates.
    pub open spec fn with_cursor(self, x_bits: u32, y_bits: u32) -> InputView {
        InputView { cursor: CursorPosition { x_bits, y_bits }, ..self }
    }

    /// The state after one setter call.
    pub open spec fn apply(self, change: Change) -> InputView {
        match change {
            Change::Key(code, state) => self.with_key(code, state),
            Change::Button(button, state) => self.with_button(button, state),
            Change::Cursor(x_bits, y_bits) => self.with_cursor(x_bits, y_bits),
        }
    }

    /// The state after a run of setter calls, the first of them first.
    pub open spec fn apply_all(self, changes: Seq<Change>) -> InputView
        decreases changes.len(),
    {
        if changes.len() == 0 {
            self
        } else {
            self.apply_all(changes.drop_last()).apply(changes.last())
        }
    }

    /// A key is pressed when it is recorded and its record says so.
    pub open spec fn key_pressed(self, code: KeyCode) -> bool {
        self.keys.contains_key(code) && self.keys[code] == ElementState::Pressed
    }

    /// A button is pressed when it is recorded and its record says so.
    pub open spec fn button_pressed(self, button: MouseButton) -> bool {
        self.buttons.contains_key(button) && self.buttons[button] == ElementState::Pressed
    }
}

/// No identifier occurs in two records.
pub open spec fn distinct<K>(records: Seq<(K, ElementState)>) -> bool {
    forall|i: int, j: int|
        0 <= i < j < records.len() ==> (#[trigger] records[i]).0 != (#[trigger] records[j]).0
}

/// Whether some record is about `id`.
pub open spec fn recorded<K>(records: Seq<(K, ElementState)>, id: K) -> bool {
    exists|i: int| 0 <= i < records.len() && (#[trigger] records[i]).0 == id
}

/// The map that a list of records stands for: each identifier that has a
/// record, with the state of that record.
pub open spec fn record_map<K>(records: Seq<(K, ElementState)>) -> Map<K, ElementState> {
    Map::new(
        |id: K| recorded(records, id),
        |id: K|
            records[choose|i: int| 0 <= i < records.len() && (#[trigger] records[i]).0 == id].1,
    )
}

/// The records that a list of key entries holds.
pub open spec fn key_records(entries: Seq<Key>) -> Seq<(KeyCode, ElementState)> {
    Seq::new(entries.len(), |i: int| (entries[i].code, entries[i].state))
}

/// The records that a list of button entries holds.
pub open spec fn button_records(entries: Seq<MouseBtn>) -> Seq<(MouseButton, ElementState)> {
    Seq::new(entries.len(), |i: int| (entries[i].button, entries[i].state))
}

/// Among records without a repeated identifier, the record at `i` is what
/// the map holds for its identifier.
pub proof fn lemma_record_is_mapped<K>(records: Seq<(K, ElementState)>, i: int)
    requires
        distinct(records),
        0 <= i < records.len(),
    ensures
        record_map(records).contains_key(records[i].0),
        record_map(records)[records[i].0] == records[i].1,
{
    let id = records[i].0;
    let j = choose|j: int| 0 <= j < records.len() && (#[trigger] records[j]).0 == id;
    assert(i == j);
}

/// Overwriting the state of the record at `i` is an insertion into the map
/// and repeats no identifier.
proof fn lemma_overwrite_is_insert<K>(records: Seq<(K, ElementState)>, i: int, state: ElementState)
    requires
        distinct(records),
        0 <= i < records.len(),
    ensures
        distinct(records.update(i, (records[i].0, state))),
        record_map(records.update(i, (records[i].0, state))) == record_map(records).insert(
            records[i].0,
            state,
        ),
{
    let id = records[i].0;
    let after = records.update(i, (id, state));
    assert forall|a: int, b: int| 0 <= a < b < after.len() implies
        (#[trigger] after[a]).0 != (#[trigger] after[b]).0
    by {
        assert(after[a].0 == records[a].0);
        assert(after[b].0 == records[b].0);
    }
    assert forall|other: K| recorded(after, other) == recorded(records, other) by {
        if recorded(after, other) {
            let k = choose|k: int| 0 <= k < after.len() && (#[trigger] after[k]).0 == other;
            assert(records[k].0 == other);
        }
        if recorded(records, other) {
            let k = choose|k: int| 0 <= k < records.len() && (#[trigger] records[k]).0 == other;
            assert(after[k].0 == other);
        }
    }
    assert(after[i].0 == id);
    assert forall|other: K| #[trigger] record_map(after).contains_key(other) implies
        record_map(after)[other] == record_map(records).insert(id, state)[other]
    by {
        let k = choose|k: int| 0 <= k < after.len() && (#[trigger] after[k]).0 == other;
        lemma_record_is_mapped(after, k);
        if k != i {
            assert(records[k].0 == other);
            lemma_record_is_mapped(records, k);
        }
    }
    assert(record_map(after) =~= record_map(records).insert(id, state));
}

/// Appending a record for an identifier that has none is an insertion into
/// the map and repeats no identifier.
proof fn lemma_append_is_insert<K>(records: Seq<(K, ElementState)>, id: K, state: ElementState)
    requires
        distinct(records),
        !recorded(records, id),
    ensures
        distinct(records.push((id, state))),
        record_map(records.push((id, state))) == record_map(records).insert(id, state),
{
    let after = records.push((id, state));
    assert forall|a: int, b: int| 0 <= a < b < after.len() implies
        (#[trigger] after[a]).0 != (#[trigger] after[b]).0
    by {
        assert(after[a] == records[a]);
        if b < records.len() {
            assert(after[b] == records[b]);
        }
    }
    assert(after[records.len() as int].0 == id);
    assert forall|other: K|
        recorded(after, other) == (recorded(records, other) || other == id)
    by {
        if recorded(after, other) {
            let k = choose|k: int| 0 <= k < after.len() && (#[trigger] after[k]).0 == other;
            if k < records.len() {
                assert(records[k].0 == other);
            }
        }
        if recorded(records, other) {
            let k = choose|k: int| 0 <= k < records.len() && (#[trigger] records[k]).0 == other;
            assert(after[k].0 == other);
        }
    }
    assert forall|other: K| #[trigger] record_map(after).contains_key(other) implies
        record_map(after)[other] == record_map(records).insert(id, state)[other]
    by {
        let k = choose|k: int| 0 <= k < after.len() && (#[trigger] after[k]).0 == other;
        lemma_record_is_mapped(after, k);
        if k < records.len() {
            assert(records[k].0 == other);
            lemma_record_is_mapped(records, k);
        }
    }
    assert(record_map(after) =~= record_map(records).insert(id, state));
}

/// Records without a repeated identifier are as many as the identifiers of
/// their map.
pub proof fn lemma_records_are_counted<K>(records: Seq<(K, ElementState)>)
    requires
        distinct(records),
    ensures
        record_map(records).dom().finite(),
        record_map(records).dom().len() == records.len(),
    decreases records.len(),
{
    if records.len() == 0 {
        assert(record_map(records).dom() =~= Set::empty());
    } else {
        let earlier = records.drop_last();
        let last = records.last();
        assert forall|i: int, j: int| 0 <= i < j < earlier.len() implies
            (#[trigger] earlier[i]).0 != (#[trigger] earlier[j]).0
        by {
            assert(earlier[i] == records[i]);
            assert(earlier[j] == records[j]);
        }
        assert(!recorded(earlier, last.0)) by {
            if recorded(earlier, last.0) {
                let k = choose|k: int|
                    0 <= k < earlier.len() && (#[trigger] earlier[k]).0 == last.0;
                assert(records[k] == earlier[k]);
                assert(records[records.len() - 1] == last);
            }
        }
        lemma_records_are_counted(earlier);
        lemma_append_is_insert(earlier, last.0, last.1);
        assert(earlier.push((last.0, last.1)) =~= records);
        assert(!record_map(earlier).dom().contains(last.0));
        assert(record_map(records).dom() =~= record_map(earlier).dom().insert(last.0));
    }
}

/// The position of the entry that records `code`, if there is one.
fn find_key(entries: &Vec<Key>, code: KeyCode) -> (found: Option<usize>)
    ensures
        match found {
            Some(i) => i < entries.len() && entries[i as int].code == code,
            None => !recorded(key_records(entries@), code),
        },
{
    let mut i: usize = 0;
    while i < entries.len()
        invariant
            i <= entries.len(),
            forall|k: int| 0 <= k < i ==> (#[trigger] key_records(entries@)[k]).0 != code,
        decreases entries.len() - i,
    {
        if entries[i].code == code {
            return Some(i);
        }
        i += 1;
    }
    None
}

/// The position of the entry that records `button`, if there is one.
fn find_button(entries: &Vec<MouseBtn>, button: MouseButton) -> (found: Option<usize>)
    ensures
        match found {
            Some(i) => i < entries.len() && entries[i as int].button == button,
            None => !recorded(button_records(entries@), button),
        },
{
    let mut i: usize = 0;
    while i < entries.len()
        invariant
            i <= entries.len(),
            forall|k: int| 0 <= k < i ==> (#[trigger] button_records(entries@)[k]).0 != button,
        decreases entries.len() - i,
    {
        if entries[i].button == button {
            return Some(i);
        }
        i += 1;
    }
    None
}

/// The current state of the keyboard, the mouse buttons and the cursor.
///
/// Each key and each button has at most one entry, whatever was recorded.
#[derive(Debug)]
pub struct Input {
    key_states: Vec<Key>,
    mouse_states: Vec<MouseBtn>,
    mouse_position: CursorPosition,
}

impl View for Input {
    type V = InputView;

    closed spec fn view(&self) -> InputView {
        InputView {
            keys: record_map(key_records(self.key_states@)),
            buttons: record_map(button_records(self.mouse_states@)),
            cursor: self.mouse_position,
        }
    }
}

impl Clone for Input {
    fn clone(&self) -> (copy: Self)
        ensures
            copy@ == self@,
    {
        proof {
            use_type_invariant(self);
        }
        let key_states = self.key_states.clone();
        let mouse_states = self.mouse_states.clone();
        assert(key_states@ =~= self.key_states@);
        assert(mouse_states@ =~= self.mouse_states@);
        Self { key_states, mouse_states, mouse_position: self.mouse_position }
    }
}

impl Input {
    #[verifier::type_invariant]
    spec fn well_formed(self) -> bool {
        distinct(key_records(self.key_states@)) && distinct(button_records(self.mouse_states@))
    }

    /// An input state in which nothing has happened yet.
    pub fn new() -> (input: Self)
        ensures
            input@ == InputView::empty(),
    {
        let input = Self {
            key_states: Vec::new(),
            mouse_states: Vec::new(),
            mouse_position: CursorPosition { x_bits: 0, y_bits: 0 },
        };
        assert(input@.keys =~= Map::empty());
        assert(input@.buttons =~= Map::empty());
        input
    }

    /// Records `state` for `button`, replacing what was recorded for it.
    pub fn set_mouse_state(&mut self, button: MouseButton, state: ElementState)
        ensures
            final(self)@ == old(self)@.with_button(button, state),
    {
        proof {
            use_type_invariant(&*self);
        }
        let found = find_button(&self.mouse_states, button);
        let mut entries: Vec<MouseBtn> = Vec::new();
        std::mem::swap(&mut entries, &mut self.mouse_states);
        let ghost before = button_records(entries@);
        match found {
            Some(i) => {
                entries.set(i, MouseBtn { button, state });
                proof {
                    lemma_overwrite_is_insert(before, i as int, state);
                    assert(button_records(entries@) =~= before.update(i as int, (button, state)));
                }
            },
            None => {
                entries.push(MouseBtn { button, state });
                proof {
                    lemma_append_is_insert(before, button, state);
                    assert(button_records(entries@) =~= before.push((button, state)));
                }
            },
        }
        self.mouse_states = entries;
    }

    /// Whether `button` is held down. A button that was never recorded is not.
    pub fn is_mouse_button_pressed(&self, button: MouseButton) -> (pressed: bool)
        ensures
            pressed == self@.button_pressed(button),
    {
        proof {
            use_type_invariant(self);
        }
        match find_button(&self.mouse_states, button) {
            Some(i) => {
                proof {
                    lemma_record_is_mapped(button_records(self.mouse_states@), i as int);
                }
                self.mouse_states[i].state == ElementState::Pressed
            },
            None => false,
        }
    }

    /// Records where the cursor is.
    pub fn set_mouse_position(&mut self, x_bits: u32, y_bits: u32)
        ensures
            final(self)@ == old(self)@.with_cursor(x_bits, y_bits),
    {
        proof {
            use_type_invariant(&*self);
        }
        self.mouse_position = CursorPosition { x_bits, y_bits };
    }

    /// Where the cursor was last recorded; the origin before any record.
    pub fn get_mouse_position(&self) -> (position: &CursorPosition)
        ensures
            *position == self@.cursor,
    {
        &self.mouse_position
    }

    /// Records `state` for `key_code`, replacing what was recorded for it.
    pub fn set_key_state(&mut self, key_code: KeyCode, state: ElementState)
        ensures
            final(self)@ == old(self)@.with_key(key_code, state),
    {
        proof {
            use_type_invariant(&*self);
        }
        let found = find_key(&self.key_states, key_code);
        let mut entries: Vec<Key> = Vec::new();
        std::mem::swap(&mut entries, &mut self.key_states);
        let ghost before = key_records(entries@);
        match found {
            Some(i) => {
                entries.set(i, Key { code: key_code, state });
                proof {
                    lemma_overwrite_is_insert(before, i as int, state);
                    assert(key_records(entries@) =~= before.update(i as int, (key_code, state)));
                }
            },
            None => {
                entries.push(Key { code: key_code, state });
                proof {
                    lemma_append_is_insert(before, key_code, state);
                    assert(key_records(entries@) =~= before.push((key_code, state)));
                }
            },
        }
        self.key_states = entries;
    }

    /// Whether `key` is held down. A key that was never recorded is not.
    pub fn in_key_pressed(&self, key: KeyCode) -> (pressed: bool)
        ensures
            pressed == self@.key_pressed(key),
    {
        proof {
            use_type_invariant(self);
        }
        match find_key(&self.key_states, key) {
            Some(i) => {
                proof {
                    lemma_record_is_mapped(key_records(self.key_states@), i as int);
                }
                self.key_states[i].state == ElementState::Pressed
            },
            None => false,
        }
    }

    /// The recorded keys with their states, each key once.
    pub fn key_states(&self) -> (entries: &Vec<Key>)
        ensures
            distinct(key_records(entries@)),
            record_map(key_records(entries@)) == self@.keys,
            entries@.len() == self@.keys.dom().len(),
    {
        proof {
            use_type_invariant(self);
            lemma_records_are_counted(key_records(self.key_states@));
        }
        &self.key_states
    }

    /// The recorded buttons with their states, each button once.
    pub fn mouse_states(&self) -> (entries: &Vec<MouseBtn>)
        ensures
            distinct(button_records(entries@)),
            record_map(button_records(entries@)) == self@.buttons,
            entries@.len() == self@.buttons.dom().len(),
    {
        proof {
            use_type_invariant(self);
            lemma_records_are_counted(button_records(self.mouse_states@));
        }
        &self.mouse_states
    }
}

/// A key that no setter call names keeps the record it had, so a key that
/// was never passed to a setter is not pressed.
pub proof fn lemma_unrecorded_key_is_released(start: InputView, changes: Seq<Change>, code: KeyCode)
    requires
        forall|i: int|
            0 <= i < changes.len() ==> !(#[trigger] changes[i] matches Change::Key(c, _)
                && c == code),
    ensures
        start.apply_all(changes).key_pressed(code) == start.key_pressed(code),
        !InputView::empty().apply_all(changes).key_pressed(code),
    decreases changes.len(),
{
    if changes.len() > 0 {
        let earlier = changes.drop_last();
        assert forall|i: int| 0 <= i < earlier.len() implies
            !(#[trigger] earlier[i] matches Change::Key(c, _) && c == code)
        by {
            assert(earlier[i] == changes[i]);
        }
        lemma_unrecorded_key_is_released(start, earlier, code);
        lemma_unrecorded_key_is_released(InputView::empty(), earlier, code);
        assert(!(changes[changes.len() - 1] matches Change::Key(c, _) && c == code));
    }
}

/// A button that no setter call names keeps the record it had, so a button
/// that was never passed to a setter is not pressed.
pub proof fn lemma_unrecorded_button_is_released(
    start: InputView,
    changes: Seq<Change>,
    button: MouseButton,
)
    requires
        forall|i: int|
            0 <= i < changes.len() ==> !(#[trigger] changes[i] matches Change::Button(b, _)
                && b == button),
    ensures
        start.apply_all(changes).button_pressed(button) == start.button_pressed(button),
        !InputView::empty().apply_all(changes).button_pressed(button),
    decreases changes.len(),
{
    if changes.len() > 0 {
        let earlier = changes.drop_last();
        assert forall|i: int| 0 <= i < earlier.len() implies
            !(#[trigger] earlier[i] matches Change::Button(b, _) && b == button)
        by {
            assert(earlier[i] == changes[i]);
        }
        lemma_unrecorded_button_is_released(start, earlier, button);
        lemma_unrecorded_button_is_released(InputView::empty(), earlier, button);
        assert(!(changes[changes.len() - 1] matches Change::Button(b, _) && b == button));
    }
}

/// Recording the same state for the same key or button twice in a row is
/// the same as recording it once.
pub proof fn lemma_setters_are_idempotent(state_before: InputView, change: Change)
    ensures
        state_before.apply(change).apply(change) == state_before.apply(change),
{
    let once = state_before.apply(change);
    let twice = once.apply(change);
    assert(twice.keys =~= once.keys);
    assert(twice.buttons =~= once.buttons);
}

} // verus!
