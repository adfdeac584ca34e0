//! Keys, sets of keys, and the names by which a configuration file calls them.

use vstd::prelude::*;
use crate::parse::{bounded_value, chars_of, parse_unsigned, same_text};

verus! {

/// A key that a shortcut can name.
#[derive(Copy, Clone, Debug, PartialEq, Eq, Hash, Structural)]
pub enum Key {
    Backspace,
    Enter,
    Left,
    Right,
    Up,
    Down,
    Home,
    End,
    PageUp,
    PageDown,
    Tab,
    BackTab,
    Delete,
    Insert,
    Esc,
    /// A function key, by its number.
    F(u8),
    /// The key of a character.
    Char(char),
}

/// A set of keys. No key is held twice.
#[derive(Debug)]
pub struct KeySet {
    keys: Vec<Key>,
}

impl View for KeySet {
    type V = Set<Key>;

    closed spec fn view(&self) -> Set<Key> {
        self.keys@.to_set()
    }
}

impl Clone for KeySet {
    fn clone(&self) -> (set: KeySet)
        ensures
            set@ == self@,
    {
        proof {
            use_type_invariant(self);
        }
        let keys = self.keys.clone();
        assert(keys@ =~= self.keys@);
        KeySet { keys }
    }
}

impl KeySet {
    #[verifier::type_invariant]
    spec fn distinct(self) -> bool {
        self.keys@.no_duplicates()
    }

    /// The empty set.
    pub fn new() -> (set: KeySet)
        ensures
            set@ == Set::<Key>::empty(),
    {
        let set = KeySet { keys: Vec::new() };
        assert(set@ =~= Set::<Key>::empty());
        set
    }

    /// Whether the key is in the set.
    pub fn contains(&self, key: Key) -> (found: bool)
        ensures
            found == self@.contains(key),
    {
        let mut i: usize = 0;
        while i < self.keys.len()
            invariant
                i <= self.keys@.len(),
                forall|j: int| 0 <= j < i ==> self.keys@[j] != key,
            decreases self.keys@.len() - i,
        {
            if self.keys[i] == key {
                return true;
            }
            i = i + 1;
        }
        false
    }

    /// Puts the key into the set. Returns whether it was new to the set.
    pub fn insert(&mut self, key: Key) -> (added: bool)
        ensures
            final(self)@ == old(self)@.insert(key),
            added == !old(self)@.contains(key),
    {
        proof {
            use_type_invariant(&*self);
        }
        if self.contains(key) {
            assert(self@.insert(key) =~= self@);
            false
        } else {
            let ghost before = self.keys@;
            let mut keys = self.keys.clone();
            assert(keys@ =~= before);
            keys.push(key);
            assert(keys@.no_duplicates());
            self.keys = keys;
            assert(self.keys@.to_set() =~= before.to_set().insert(key)) by {
                assert forall|k: Key| self.keys@.to_set().contains(k) implies before.to_set().insert(
                    key,
                ).contains(k) by {
                    let i = choose|i: int| 0 <= i < self.keys@.len() && self.keys@[i] == k;
                    if i < before.len() {
                        assert(before[i] == k);
                    }
                }
                assert forall|k: Key| before.to_set().insert(key).contains(
                    k,
                ) implies self.keys@.to_set().contains(k) by {
                    if k == key {
                        assert(self.keys@[before.len() as int] == k);
                    } else {
                        let i = choose|i: int| 0 <= i < before.len() && before[i] == k;
                        assert(self.keys@[i] == k);
                    }
                }
            }
            true
        }
    }

    /// How many keys the set holds.
    pub fn len(&self) -> (count: usize)
        ensures
            count == self@.len(),
            self@.finite(),
    {
        proof {
            use_type_invariant(self);
            self.keys@.unique_seq_to_set();
        }
        self.keys.len()
    }

    /// The keys of the set, each once.
    pub fn keys(&self) -> (keys: &Vec<Key>)
        ensures
            keys@.to_set() == self@,
            keys@.no_duplicates(),
    {
        proof {
            use_type_invariant(self);
        }
        &self.keys
    }
}

/// The key that a shortcut names. The keys without a character of their own go
/// by fixed names; one ASCII character names its own key; `f` before a number
/// of at most 255 names a function key. Anything else names no key.
pub open spec fn shortcut_key(s: Seq<char>) -> Option<Key> {
    if s == "backspace"@ {
        Some(Key::Backspace)
    } else if s == "enter"@ {
        Some(Key::Enter)
    } else if s == "arrow_left"@ {
        Some(Key::Left)
    } else if s == "arrow_right"@ {
        Some(Key::Right)
    } else if s == "arrow_up"@ {
        Some(Key::Up)
    } else if s == "arrow_down"@ {
        Some(Key::Down)
    } else if s == "home"@ {
        Some(Key::Home)
    } else if s == "end"@ {
        Some(Key::End)
    } else if s == "page_up"@ {
        Some(Key::PageUp)
    } else if s == "page_down"@ {
        Some(Key::PageDown)
    } else if s == "tab"@ {
        Some(Key::Tab)
    } else if s == "back_tab"@ {
        Some(Key::BackTab)
    } else if s == "delete"@ {
        Some(Key::Delete)
    } else if s == "insert"@ {
        Some(Key::Insert)
    } else if s == "esc"@ {
        Some(Key::Esc)
    } else if s.len() == 1 && (s[0] as u32) < 128 {
        Some(Key::Char(s[0]))
    } else if s.len() > 0 && s[0] == 'f' {
        match bounded_value(s.skip(1), 255) {
            Some(number) => Some(Key::F(number as u8)),
            None => None,
        }
    } else {
        None
    }
}

/// The keys that a list of shortcuts names.
pub open spec fn shortcut_keys(shortcuts: Seq<Seq<char>>) -> Set<Key> {
    Set::new(
        |key: Key|
            exists|i: int| 0 <= i < shortcuts.len() && #[trigger] shortcut_key(shortcuts[i]) == Some(key),
    )
}

/// The index of the first shortcut that names no key; the length of the list
/// where each names one.
pub open spec fn first_unknown(shortcuts: Seq<Seq<char>>) -> int
    decreases shortcuts.len(),
{
    if shortcuts.len() == 0 {
        0
    } else if first_unknown(shortcuts.drop_last()) < shortcuts.len() - 1 {
        first_unknown(shortcuts.drop_last())
    } else if shortcut_key(shortcuts.last()) is None {
        shortcuts.len() - 1
    } else {
        shortcuts.len() as int
    }
}

/// Reads one shortcut.
pub fn parse_shortcut(shortcut: &str) -> (key: Option<Key>)
    ensures
        key == shortcut_key(shortcut@),
{
    if same_text(shortcut, "backspace") {
        Some(Key::Backspace)
    } else if same_text(shortcut, "enter") {
        Some(Key::Enter)
    } else if same_text(shortcut, "arrow_left") {
        Some(Key::Left)
    } else if same_text(shortcut, "arrow_right") {
        Some(Key::Right)
    } else if same_text(shortcut, "arrow_up") {
        Some(Key::Up)
    } else if same_text(shortcut, "arrow_down") {
        Some(Key::Down)
    } else if same_text(shortcut, "home") {
        Some(Key::Home)
    } else if same_text(shortcut, "end") {
        Some(Key::End)
    } else if same_text(shortcut, "page_up") {
        Some(Key::PageUp)
    } else if same_text(shortcut, "page_down") {
        Some(Key::PageDown)
    } else if same_text(shortcut, "tab") {
        Some(Key::Tab)
    } else if same_text(shortcut, "back_tab") {
        Some(Key::BackTab)
    } else if same_text(shortcut, "delete") {
        Some(Key::Delete)
    } else if same_text(shortcut, "insert") {
        Some(Key::Insert)
    } else if same_text(shortcut, "esc") {
        Some(Key::Esc)
    } else {
        let chars = chars_of(shortcut);
        if chars.len() == 1 && (chars[0] as u32) < 128 {
            Some(Key::Char(chars[0]))
        } else if chars.len() > 0 && chars[0] == 'f' {
            let number = shortcut.substring_char(1, chars.len());
            assert(number@ =~= shortcut@.skip(1));
            match parse_unsigned(number, 255) {
                Some(number) => Some(Key::F(number as u8)),
                None => None,
            }
        } else {
            None
        }
    }
}

} // verus!
