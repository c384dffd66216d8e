//! From key presses to actions: the shortcut table and what a key that has
//! no shortcut does.
//!
//! The keys and modifiers are the engine's own plain values; whoever owns the
//! window turns its key events into them.

use std::collections::HashMap;
use vstd::prelude::*;
use crate::editor_action::{
    action_applies,
    can_paste,
    dispatch_action,
    effect_of,
    state_after,
    EditorAction,
    Effect,
    EffectView,
};
use crate::lines::max_text_len;
use crate::model::TextView;
use crate::text::Text;

verus! {

/// The keys the editor reacts to. Every other key is `Other`.
#[derive(Clone, Copy, Debug, PartialEq, Eq, Structural)]
pub enum Key {
    Z,
    Y,
    S,
    V,
    C,
    X,
    Backspace,
    Delete,
    Left,
    Right,
    Up,
    Down,
    End,
    Home,
    PageUp,
    PageDown,
    Enter,
    Tab,
    Other,
}

/// The modifier keys held down with a key.
#[derive(Clone, Copy, Debug, PartialEq, Eq, Structural)]
pub struct Modifiers {
    pub shift: bool,
    pub control: bool,
    pub alt: bool,
    pub logo: bool,
    pub caps_lock: bool,
    pub num_lock: bool,
}

/// A key together with the modifiers held down with it.
#[derive(Clone, Copy, Debug, PartialEq, Eq, Structural)]
pub struct KeyAction {
    pub key: Key,
    pub modifiers: Modifiers,
}

/// The modifiers with `shift` and `control` held down or not, and no other.
pub open spec fn modifiers_of(shift: bool, control: bool) -> Modifiers {
    Modifiers { shift, control, alt: false, logo: false, caps_lock: false, num_lock: false }
}

/// `key` alone.
pub open spec fn plain(key: Key) -> KeyAction {
    KeyAction { key, modifiers: modifiers_of(false, false) }
}

/// `key` with shift.
pub open spec fn with_shift(key: Key) -> KeyAction {
    KeyAction { key, modifiers: modifiers_of(true, false) }
}

/// `key` with control.
pub open spec fn with_control(key: Key) -> KeyAction {
    KeyAction { key, modifiers: modifiers_of(false, true) }
}

/// `key` with control and shift.
pub open spec fn with_control_shift(key: Key) -> KeyAction {
    KeyAction { key, modifiers: modifiers_of(true, true) }
}

impl KeyAction {
    /// `key` with shift and control held down or not, and no other modifier.
    pub fn new(key: Key, shift: bool, control: bool) -> (k: KeyAction)
        ensures
            k == (KeyAction { key, modifiers: modifiers_of(shift, control) }),
    {
        KeyAction {
            key,
            modifiers: Modifiers {
                shift,
                control,
                alt: false,
                logo: false,
                caps_lock: false,
                num_lock: false,
            },
        }
    }
}

/// The shortcuts of the editor, in the order they are registered.
pub open spec fn shortcut_table() -> Seq<(KeyAction, EditorAction)> {
    seq![
        (with_control(Key::Z), EditorAction::Undo),
        (with_control(Key::Y), EditorAction::Redo),
        (with_control(Key::S), EditorAction::Save),
        (plain(Key::Backspace), EditorAction::DeleteBackward),
        (plain(Key::Delete), EditorAction::DeleteForward),
        (plain(Key::Left), EditorAction::CursorLeft),
        (with_shift(Key::Left), EditorAction::CursorLeftSelect),
        (with_control(Key::Left), EditorAction::CursorPrevWord),
        (with_control_shift(Key::Left), EditorAction::CursorPrevWordSelect),
        (plain(Key::Right), EditorAction::CursorRight),
        (with_shift(Key::Right), EditorAction::CursorRightSelect),
        (with_control(Key::Right), EditorAction::CursorNextWord),
        (with_control_shift(Key::Right), EditorAction::CursorNextWordSelect),
        (plain(Key::Up), EditorAction::CursorUp),
        (with_shift(Key::Up), EditorAction::CursorUpSelect),
        (plain(Key::Down), EditorAction::CursorDown),
        (with_shift(Key::Down), EditorAction::CursorDownSelect),
        (plain(Key::End), EditorAction::CursorEnd),
        (with_shift(Key::End), EditorAction::CursorEndSelect),
        (with_control(Key::End), EditorAction::CursorEndOfFile),
        (with_control_shift(Key::End), EditorAction::CursorEndOfFileSelect),
        (plain(Key::Home), EditorAction::CursorHome),
        (with_shift(Key::Home), EditorAction::CursorHomeSelect),
        (with_control(Key::Home), EditorAction::CursorBeginningOfFile),
        (with_control_shift(Key::Home), EditorAction::CursorBeginningOfFileSelect),
        (plain(Key::PageUp), EditorAction::CursorPageUp),
        (with_shift(Key::PageUp), EditorAction::CursorPageUpSelect),
        (plain(Key::PageDown), EditorAction::CursorPageDown),
        (with_shift(Key::PageDown), EditorAction::CursorPageDownSelect),
        (with_control(Key::V), EditorAction::Paste),
        (with_control(Key::C), EditorAction::Copy),
        (with_control(Key::X), EditorAction::Cut),
    ]
}

/// The action that `table` gives `key`: that of the last entry for the key,
/// as a later registration replaces an earlier one. `None` where the table
/// has no entry for it.
pub open spec fn lookup(table: Seq<(KeyAction, EditorAction)>, key: KeyAction) -> Option<
    EditorAction,
>
    decreases table.len(),
{
    if table.len() == 0 {
        None
    } else if table.last().0 == key {
        Some(table.last().1)
    } else {
        lookup(table.drop_last(), key)
    }
}

/// Where no later entry of `table` is for the key of entry `i`, the table
/// gives that key the action of entry `i`.
pub proof fn lemma_lookup_entry(table: Seq<(KeyAction, EditorAction)>, i: int)
    requires
        0 <= i < table.len(),
        forall|j: int| i < j < table.len() ==> (#[trigger] table[j]).0 != table[i].0,
    ensures
        lookup(table, table[i].0) == Some(table[i].1),
    decreases table.len(),
{
    if i < table.len() - 1 {
        assert(table.last() == table[table.len() - 1]);
        lemma_lookup_entry(table.drop_last(), i);
    }
}

/// A key that no entry of `table` is for has no action.
pub proof fn lemma_lookup_none(table: Seq<(KeyAction, EditorAction)>, key: KeyAction)
    requires
        forall|j: int| 0 <= j < table.len() ==> (#[trigger] table[j]).0 != key,
    ensures
        lookup(table, key) is None,
    decreases table.len(),
{
    if table.len() > 0 {
        assert(table.last() == table[table.len() - 1]);
        lemma_lookup_none(table.drop_last(), key);
    }
}

/// No two default shortcuts are for the same key, so each entry of the
/// default table is in force: its key stands for its action.
pub proof fn lemma_default_shortcuts_in_force(i: int)
    requires
        0 <= i < shortcut_table().len(),
    ensures
        lookup(shortcut_table(), shortcut_table()[i].0) == Some(shortcut_table()[i].1),
{
    let table = shortcut_table();
    assert forall|j: int| i < j < table.len() implies (#[trigger] table[j]).0 != table[i].0 by {}
    lemma_lookup_entry(table, i);
}

/// The shortcuts the editor starts with.
pub fn default_shortcuts() -> (table: Vec<(KeyAction, EditorAction)>)
    ensures
        table@ == shortcut_table(),
{
    let table = vec![
        (KeyAction::new(Key::Z, false, true), EditorAction::Undo),
        (KeyAction::new(Key::Y, false, true), EditorAction::Redo),
        (KeyAction::new(Key::S, false, true), EditorAction::Save),
        (KeyAction::new(Key::Backspace, false, false), EditorAction::DeleteBackward),
        (KeyAction::new(Key::Delete, false, false), EditorAction::DeleteForward),
        (KeyAction::new(Key::Left, false, false), EditorAction::CursorLeft),
        (KeyAction::new(Key::Left, true, false), EditorAction::CursorLeftSelect),
        (KeyAction::new(Key::Left, false, true), EditorAction::CursorPrevWord),
        (KeyAction::new(Key::Left, true, true), EditorAction::CursorPrevWordSelect),
        (KeyAction::new(Key::Right, false, false), EditorAction::CursorRight),
        (KeyAction::new(Key::Right, true, false), EditorAction::CursorRightSelect),
        (KeyAction::new(Key::Right, false, true), EditorAction::CursorNextWord),
        (KeyAction::new(Key::Right, true, true), EditorAction::CursorNextWordSelect),
        (KeyAction::new(Key::Up, false, false), EditorAction::CursorUp),
        (KeyAction::new(Key::Up, true, false), EditorAction::CursorUpSelect),
        (KeyAction::new(Key::Down, false, false), EditorAction::CursorDown),
        (KeyAction::new(Key::Down, true, false), EditorAction::CursorDownSelect),
        (KeyAction::new(Key::End, false, false), EditorAction::CursorEnd),
        (KeyAction::new(Key::End, true, false), EditorAction::CursorEndSelect),
        (KeyAction::new(Key::End, false, true), EditorAction::CursorEndOfFile),
        (KeyAction::new(Key::End, true, true), EditorAction::CursorEndOfFileSelect),
        (KeyAction::new(Key::Home, false, false), EditorAction::CursorHome),
        (KeyAction::new(Key::Home, true, false), EditorAction::CursorHomeSelect),
        (KeyAction::new(Key::Home, false, true), EditorAction::CursorBeginningOfFile),
        (KeyAction::new(Key::Home, true, true), EditorAction::CursorBeginningOfFileSelect),
        (KeyAction::new(Key::PageUp, false, false), EditorAction::CursorPageUp),
        (KeyAction::new(Key::PageUp, true, false), EditorAction::CursorPageUpSelect),
        (KeyAction::new(Key::PageDown, false, false), EditorAction::CursorPageDown),
        (KeyAction::new(Key::PageDown, true, false), EditorAction::CursorPageDownSelect),
        (KeyAction::new(Key::V, false, true), EditorAction::Paste),
        (KeyAction::new(Key::C, false, true), EditorAction::Copy),
        (KeyAction::new(Key::X, false, true), EditorAction::Cut),
    ];
    assert(table@ =~= shortcut_table());
    table
}

/// The number of a key: its place in the list of keys.
pub open spec fn key_number(key: Key) -> u64 {
    match key {
        Key::Z => 0,
        Key::Y => 1,
        Key::S => 2,
        Key::V => 3,
        Key::C => 4,
        Key::X => 5,
        Key::Backspace => 6,
        Key::Delete => 7,
        Key::Left => 8,
        Key::Right => 9,
        Key::Up => 10,
        Key::Down => 11,
        Key::End => 12,
        Key::Home => 13,
        Key::PageUp => 14,
        Key::PageDown => 15,
        Key::Enter => 16,
        Key::Tab => 17,
        Key::Other => 18,
    }
}

/// The modifiers as six bits, one for each.
pub open spec fn modifier_bits(modifiers: Modifiers) -> u64 {
    ((if modifiers.shift {
        1int
    } else {
        0int
    }) + (if modifiers.control {
        2int
    } else {
        0int
    }) + (if modifiers.alt {
        4int
    } else {
        0int
    }) + (if modifiers.logo {
        8int
    } else {
        0int
    }) + (if modifiers.caps_lock {
        16int
    } else {
        0int
    }) + (if modifiers.num_lock {
        32int
    } else {
        0int
    })) as u64
}

/// The number a key press is filed under in the shortcut map: the key's
/// number in front of the six modifier bits.
pub open spec fn key_code(key: KeyAction) -> u64 {
    (key_number(key.key) * 64 + modifier_bits(key.modifiers)) as u64
}

/// Two key presses have the same code only if they are the same.
pub proof fn lemma_key_code_injective(a: KeyAction, b: KeyAction)
    requires
        key_code(a) == key_code(b),
    ensures
        a == b,
{
    assert(modifier_bits(a.modifiers) < 64 && modifier_bits(b.modifiers) < 64);
    assert(key_number(a.key) == key_number(b.key));
    assert(modifier_bits(a.modifiers) == modifier_bits(b.modifiers));
}

impl Key {
    /// The number of this key.
    pub fn number(self) -> (n: u64)
        ensures
            n == key_number(self),
    {
        match self {
            Key::Z => 0,
            Key::Y => 1,
            Key::S => 2,
            Key::V => 3,
            Key::C => 4,
            Key::X => 5,
            Key::Backspace => 6,
            Key::Delete => 7,
            Key::Left => 8,
            Key::Right => 9,
            Key::Up => 10,
            Key::Down => 11,
            Key::End => 12,
            Key::Home => 13,
            Key::PageUp => 14,
            Key::PageDown => 15,
            Key::Enter => 16,
            Key::Tab => 17,
            Key::Other => 18,
        }
    }
}

impl Modifiers {
    /// These modifiers as six bits.
    pub fn bits(self) -> (bits: u64)
        ensures
            bits == modifier_bits(self),
    {
        let mut bits: u64 = 0;
        if self.shift {
            bits += 1;
        }
        if self.control {
            bits += 2;
        }
        if self.alt {
            bits += 4;
        }
        if self.logo {
            bits += 8;
        }
        if self.caps_lock {
            bits += 16;
        }
        if self.num_lock {
            bits += 32;
        }
        bits
    }
}

impl KeyAction {
    /// The number this key press is filed under in the shortcut map.
    pub fn code(&self) -> (code: u64)
        ensures
            code == key_code(*self),
    {
        self.key.number() * 64 + self.modifiers.bits()
    }
}

/// The map that registering the entries of `table` one after the other
/// gives: each key's code to the action of the last entry for that key.
pub open spec fn table_map(table: Seq<(KeyAction, EditorAction)>) -> Map<u64, EditorAction>
    decreases table.len(),
{
    if table.len() == 0 {
        Map::empty()
    } else {
        table_map(table.drop_last()).insert(key_code(table.last().0), table.last().1)
    }
}

/// The action that `map` files under the code of `key`, if any.
pub open spec fn map_action(map: Map<u64, EditorAction>, key: KeyAction) -> Option<EditorAction> {
    if map.contains_key(key_code(key)) {
        Some(map[key_code(key)])
    } else {
        None
    }
}

/// The map of a table gives every key the action that the table gives it.
pub proof fn lemma_table_map_lookup(table: Seq<(KeyAction, EditorAction)>, key: KeyAction)
    ensures
        map_action(table_map(table), key) == lookup(table, key),
    decreases table.len(),
{
    if table.len() > 0 {
        lemma_table_map_lookup(table.drop_last(), key);
        if key_code(table.last().0) == key_code(key) {
            lemma_key_code_injective(table.last().0, key);
        }
    }
}

/// The shortcuts in force: a map from the code of a key press to the action
/// it stands for.
pub struct KeyBoardShortcuts {
    pub shortcuts: HashMap<u64, EditorAction>,
}

impl KeyBoardShortcuts {
    /// The action that `key` stands for, if it is a shortcut.
    pub open spec fn action(&self, key: KeyAction) -> Option<EditorAction> {
        map_action(self.shortcuts@, key)
    }

    /// The default shortcuts.
    pub fn new() -> (shortcuts: KeyBoardShortcuts)
        ensures
            shortcuts.shortcuts@ == table_map(shortcut_table()),
            forall|key: KeyAction| #[trigger]
                shortcuts.action(key) == lookup(shortcut_table(), key),
    {
        broadcast use vstd::std_specs::hash::group_hash_axioms;

        let table = default_shortcuts();
        let mut e: HashMap<u64, EditorAction> = HashMap::new();
        let mut i: usize = 0;
        while i < table.len()
            invariant
                i <= table@.len(),
                e@ == table_map(table@.take(i as int)),
            decreases table@.len() - i,
        {
            let (key_action, action) = table[i];
            e.insert(key_action.code(), action);
            proof {
                assert(table@.take(i + 1).drop_last() =~= table@.take(i as int));
            }
            i = i + 1;
        }
        proof {
            assert(table@.take(i as int) =~= table@);
            assert forall|key: KeyAction| #[trigger]
                map_action(e@, key) == lookup(shortcut_table(), key) by {
                lemma_table_map_lookup(shortcut_table(), key);
            }
        }
        KeyBoardShortcuts { shortcuts: e }
    }

    /// The action a key stands for, if it is a shortcut.
    pub fn get_action(&self, key_action: &KeyAction) -> (action: Option<EditorAction>)
        ensures
            action == self.action(*key_action),
    {
        broadcast use vstd::std_specs::hash::group_hash_axioms;

        let code = key_action.code();
        match self.shortcuts.get(&code) {
            Some(action) => Some(*action),
            None => None,
        }
    }
}

/// The text after a key press that stands for `action`: the action where
/// the key is a shortcut; otherwise a line break for Enter, a tab for Tab,
/// and no change for any other key.
pub open spec fn state_after_key(
    v: TextView,
    action: Option<EditorAction>,
    key: KeyAction,
    clipboard: Option<Seq<char>>,
) -> TextView {
    match action {
        Some(action) => state_after(v, action, clipboard),
        None => match key.key {
            Key::Enter => v.insert_text(seq!['\n']),
            Key::Tab => v.insert_text(seq!['\t']),
            _ => v,
        },
    }
}

/// What a key press leaves for the caller to do: what the shortcut's action
/// leaves, and nothing for a key that is no shortcut.
pub open spec fn effect_of_key(v: TextView, action: Option<EditorAction>) -> EffectView {
    match action {
        Some(action) => effect_of(v, action),
        None => EffectView::Nothing,
    }
}

/// The key press can be carried out: a paste has something to insert, and
/// what is inserted leaves the text of a length the engine handles.
pub open spec fn key_applies(
    v: TextView,
    action: Option<EditorAction>,
    key: KeyAction,
    clipboard: Option<Seq<char>>,
) -> bool {
    match action {
        Some(action) => action == EditorAction::Paste ==> (clipboard matches Some(s)
            ==> can_paste(v, s)),
        None => key.key == Key::Enter || key.key == Key::Tab ==> v.current().text.len() + 1
            <= max_text_len(),
    }
}

/// Tests whether a key press can be carried out.
pub fn key_press_applies(
    text: &Text,
    shortcuts: &KeyBoardShortcuts,
    key: KeyAction,
    clipboard: &Option<String>,
) -> (applies: bool)
    requires
        text.wf(),
    ensures
        applies == key_applies(
            text@,
            shortcuts.action(key),
            key,
            match *clipboard {
                Some(s) => Some(s@),
                None => None,
            },
        ),
{
    match shortcuts.get_action(&key) {
        Some(action) => action_applies(text, action, clipboard),
        None => match key.key {
            Key::Enter | Key::Tab => {
                proof {
                    reveal_strlit("\n");
                }
                text.insert_applies("\n")
            },
            _ => true,
        },
    }
}

/// Applies a key press to `text` and returns what is left for the caller to
/// do. `clipboard` is read only where the key stands for a paste.
pub fn process_keyboard(
    text: &mut Text,
    shortcuts: &KeyBoardShortcuts,
    key: KeyAction,
    clipboard: Option<String>,
) -> (effect: Effect)
    requires
        old(text).wf(),
        key_applies(
            old(text)@,
            shortcuts.action(key),
            key,
            match clipboard {
                Some(s) => Some(s@),
                None => None,
            },
        ),
    ensures
        final(text).wf(),
        final(text)@ == state_after_key(
            old(text)@,
            shortcuts.action(key),
            key,
            match clipboard {
                Some(s) => Some(s@),
                None => None,
            },
        ),
        effect@ == effect_of_key(old(text)@, shortcuts.action(key)),
{
    if let Some(action) = shortcuts.get_action(&key) {
        return dispatch_action(text, action, clipboard);
    }
    proof {
        reveal_strlit("\n");
        reveal_strlit("\t");
        assert("\n"@ =~= seq!['\n']);
        assert("\t"@ =~= seq!['\t']);
    }
    match key.key {
        Key::Enter => {
            text.insert_text("\n");
        },
        Key::Tab => {
            text.insert_text("\t");
        },
        _ => {},
    }
    Effect::Nothing
}

} // verus!
