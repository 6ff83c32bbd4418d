//! The first key binding scheme: a few navigation, file and system actions bound to plain key
//! names (`Up`, `Enter`, `F5`, single characters) with no modifiers.

use crate::app::keymap::{
    all_digits, decimal_value, lemma_decimal_prefix_le, no_mods, Key, KeyCode, KeyModifiers,
};
use crate::config::input::{InputKeys, Keys};
use crate::utils::collections::{last_binding, texts};
use crate::utils::{chars_of, decimal_string, decimal_text, push_char, text_eq};
use vstd::prelude::*;

verus! {

/// Any action of this scheme: navigation, file or system.
#[derive(Clone, Copy, PartialEq, Eq, Structural, Debug)]
pub enum Action {
    Nav(NavAction),
    File(FileAction),
    System(SystemAction),
}

/// Navigation actions.
#[derive(Clone, Copy, PartialEq, Eq, Structural, Debug)]
pub enum NavAction {
    GoParent,
    GoIntoDir,
    GoUp,
    GoDown,
    ToggleMarker,
}

/// File actions.
#[derive(Clone, Copy, PartialEq, Eq, Structural, Debug)]
pub enum FileAction {
    Delete,
    Copy,
    Open,
    Paste,
    Rename,
    Create,
    CreateDirectory,
    Filter,
}

/// System actions.
#[derive(Clone, Copy, PartialEq, Eq, Structural, Debug)]
pub enum SystemAction {
    Quit,
}

/// A key without modifiers.
pub open spec fn plain(code: KeyCode) -> Key {
    Key { code, modifiers: no_mods() }
}

/// The number that a text spells as `u8::from_str` reads it: an optional `+`, then one or
/// more decimal digits whose value is at most 255.
pub open spec fn u8_text_value(t: Seq<char>) -> Option<u8> {
    let d = if t.len() > 0 && t[0] == '+' { t.drop_first() } else { t };
    if d.len() > 0 && all_digits(d) && decimal_value(d) <= 255 {
        Some(decimal_value(d) as u8)
    } else {
        None
    }
}

/// The key that a key name of this scheme names: a plain key name, `F` and a number, or a
/// single ASCII character.
pub open spec fn plain_key_spec(s: Seq<char>) -> Option<Key> {
    if s == "Up"@ {
        Some(plain(KeyCode::Up))
    } else if s == "Down"@ {
        Some(plain(KeyCode::Down))
    } else if s == "Left"@ {
        Some(plain(KeyCode::Left))
    } else if s == "Right"@ {
        Some(plain(KeyCode::Right))
    } else if s == "Enter"@ {
        Some(plain(KeyCode::Enter))
    } else if s == "Esc"@ {
        Some(plain(KeyCode::Esc))
    } else if s == "Backspace"@ {
        Some(plain(KeyCode::Backspace))
    } else if s == "Tab"@ {
        Some(plain(KeyCode::Tab))
    } else if s.len() > 0 && s[0] == 'F' {
        match u8_text_value(s.drop_first()) {
            Some(n) => Some(plain(KeyCode::F(n))),
            None => None,
        }
    } else if s.len() == 1 && s[0] <= '\u{7f}' {
        Some(plain(KeyCode::Char(s[0])))
    } else {
        None
    }
}

/// The value of `cs[from..]` read as `u8::from_str` reads it.
#[verifier::loop_isolation(false)]
pub(crate) fn u8_value_from(cs: &Vec<char>, from: usize) -> (r: Option<u8>)
    requires
        from <= cs@.len(),
    ensures
        r == u8_text_value(cs@.subrange(from as int, cs@.len() as int)),
{
    let n = cs.len();
    let ghost t = cs@.subrange(from as int, n as int);
    let start = if from < n && cs[from] == '+' { from + 1 } else { from };
    let ghost d = cs@.subrange(start as int, n as int);
    assert(d == (if t.len() > 0 && t[0] == '+' { t.drop_first() } else { t }));
    if start >= n {
        return None;
    }
    let mut v: u32 = 0;
    let mut j: usize = start;
    while j < n
        invariant
            start <= j <= n == cs@.len(),
            d == cs@.subrange(start as int, n as int),
            forall|i: int| 0 <= i < j - start ==> '0' <= #[trigger] d[i] <= '9',
            v == decimal_value(d.subrange(0, j - start)),
            v <= 255,
        decreases n - j,
    {
        let c = cs[j];
        assert(d[j - start] == c);
        if !('0' <= c && c <= '9') {
            assert(!all_digits(d));
            return None;
        }
        assert(d.subrange(0, j - start + 1).drop_last() == d.subrange(0, j - start));
        let digit: u32 = (c as u32) - 48;
        let next: u32 = v * 10 + digit;
        if next > 255 {
            proof {
                if all_digits(d) {
                    lemma_decimal_prefix_le(d, j - start + 1);
                }
            }
            return None;
        }
        v = next;
        j += 1;
    }
    assert(d.subrange(0, d.len() as int) == d);
    Some(v as u8)
}

/// Reads a key name of this scheme (see `plain_key_spec`).
pub fn plain_key(s: &str) -> (r: Option<Key>)
    ensures
        r == plain_key_spec(s@),
{
    let none = KeyModifiers::none();
    if text_eq(s, "Up") {
        Some(Key { code: KeyCode::Up, modifiers: none })
    } else if text_eq(s, "Down") {
        Some(Key { code: KeyCode::Down, modifiers: none })
    } else if text_eq(s, "Left") {
        Some(Key { code: KeyCode::Left, modifiers: none })
    } else if text_eq(s, "Right") {
        Some(Key { code: KeyCode::Right, modifiers: none })
    } else if text_eq(s, "Enter") {
        Some(Key { code: KeyCode::Enter, modifiers: none })
    } else if text_eq(s, "Esc") {
        Some(Key { code: KeyCode::Esc, modifiers: none })
    } else if text_eq(s, "Backspace") {
        Some(Key { code: KeyCode::Backspace, modifiers: none })
    } else if text_eq(s, "Tab") {
        Some(Key { code: KeyCode::Tab, modifiers: none })
    } else {
        let cs = chars_of(s);
        if cs.len() > 0 && cs[0] == 'F' {
            assert(cs@.subrange(1, cs@.len() as int) == s@.drop_first());
            match u8_value_from(&cs, 1) {
                Some(n) => Some(Key { code: KeyCode::F(n), modifiers: none }),
                None => None,
            }
        } else if cs.len() == 1 && cs[0] <= '\u{7f}' {
            Some(Key { code: KeyCode::Char(cs[0]), modifiers: none })
        } else {
            None
        }
    }
}

/// The bindings of the keys named by `ts` to `a`, in order.
pub open spec fn plain_entries(ts: Seq<Seq<char>>, a: Action) -> Seq<(Key, Action)>
    decreases ts.len(),
{
    if ts.len() == 0 {
        Seq::empty()
    } else {
        match plain_key_spec(ts.last()) {
            Some(k) => plain_entries(ts.drop_last(), a).push((k, a)),
            None => plain_entries(ts.drop_last(), a),
        }
    }
}

/// The configured bindings of this scheme, in the order in which they are applied.
pub open spec fn binding_at(i: int) -> (InputKeys, Action) {
    if i == 0 { (InputKeys::GoParent, Action::Nav(NavAction::GoParent)) }
    else if i == 1 { (InputKeys::GoIntoDir, Action::Nav(NavAction::GoIntoDir)) }
    else if i == 2 { (InputKeys::GoUp, Action::Nav(NavAction::GoUp)) }
    else if i == 3 { (InputKeys::GoDown, Action::Nav(NavAction::GoDown)) }
    else if i == 4 { (InputKeys::ToggleMarker, Action::Nav(NavAction::ToggleMarker)) }
    else if i == 5 { (InputKeys::OpenFile, Action::File(FileAction::Open)) }
    else if i == 6 { (InputKeys::Delete, Action::File(FileAction::Delete)) }
    else if i == 7 { (InputKeys::Copy, Action::File(FileAction::Copy)) }
    else if i == 8 { (InputKeys::Paste, Action::File(FileAction::Paste)) }
    else if i == 9 { (InputKeys::Rename, Action::File(FileAction::Rename)) }
    else if i == 10 { (InputKeys::Create, Action::File(FileAction::Create)) }
    else if i == 11 { (InputKeys::CreateDirectory, Action::File(FileAction::CreateDirectory)) }
    else if i == 12 { (InputKeys::Filter, Action::File(FileAction::Filter)) }
    else { (InputKeys::Quit, Action::System(SystemAction::Quit)) }
}

/// The binding at `i`.
fn binding(i: usize) -> (r: (InputKeys, Action))
    ensures
        r == binding_at(i as int),
{
    if i == 0 { (InputKeys::GoParent, Action::Nav(NavAction::GoParent)) }
    else if i == 1 { (InputKeys::GoIntoDir, Action::Nav(NavAction::GoIntoDir)) }
    else if i == 2 { (InputKeys::GoUp, Action::Nav(NavAction::GoUp)) }
    else if i == 3 { (InputKeys::GoDown, Action::Nav(NavAction::GoDown)) }
    else if i == 4 { (InputKeys::ToggleMarker, Action::Nav(NavAction::ToggleMarker)) }
    else if i == 5 { (InputKeys::OpenFile, Action::File(FileAction::Open)) }
    else if i == 6 { (InputKeys::Delete, Action::File(FileAction::Delete)) }
    else if i == 7 { (InputKeys::Copy, Action::File(FileAction::Copy)) }
    else if i == 8 { (InputKeys::Paste, Action::File(FileAction::Paste)) }
    else if i == 9 { (InputKeys::Rename, Action::File(FileAction::Rename)) }
    else if i == 10 { (InputKeys::Create, Action::File(FileAction::Create)) }
    else if i == 11 { (InputKeys::CreateDirectory, Action::File(FileAction::CreateDirectory)) }
    else if i == 12 { (InputKeys::Filter, Action::File(FileAction::Filter)) }
    else { (InputKeys::Quit, Action::System(SystemAction::Quit)) }
}

/// The number of configured bindings of this scheme.
pub const BINDING_COUNT: usize = 14;

/// The table that the first `n` configured bindings make.
pub open spec fn plain_table(keys: Keys, n: int) -> Seq<(Key, Action)>
    decreases n,
{
    if n <= 0 {
        Seq::empty()
    } else {
        plain_table(keys, n - 1) + plain_entries(keys.bound(binding_at(n - 1).0), binding_at(n - 1).1)
    }
}

/// Appends to `table` the bindings of the keys named by `list` to `a`.
fn push_plain_bindings(list: &[String], a: Action, table: &mut Vec<(Key, Action)>)
    ensures
        final(table)@ == old(table)@ + plain_entries(texts(list@), a),
{
    let ghost ts = texts(list@);
    let ghost start = table@;
    let mut j: usize = 0;
    while j < list.len()
        invariant
            j <= list@.len(),
            ts == texts(list@),
            ts.len() == list@.len(),
            table@ == start + plain_entries(ts.subrange(0, j as int), a),
        decreases list@.len() - j,
    {
        assert(ts.subrange(0, j + 1).drop_last() == ts.subrange(0, j as int));
        assert(ts[j as int] == list@[j as int]@);
        match plain_key(list[j].as_str()) {
            Some(k) => {
                table.push((k, a));
            },
            None => {},
        }
        j += 1;
    }
    assert(ts.subrange(0, list@.len() as int) == ts);
}

/// The name of a key code: the character itself, `F` and the number, or the key's name.
pub open spec fn keycode_text(code: KeyCode) -> Seq<char> {
    match code {
        KeyCode::Char(c) => seq![c],
        KeyCode::Enter => "Enter"@,
        KeyCode::Esc => "Esc"@,
        KeyCode::Backspace => "Backspace"@,
        KeyCode::Tab => "Tab"@,
        KeyCode::Delete => "Delete"@,
        KeyCode::Up => "Up"@,
        KeyCode::Down => "Down"@,
        KeyCode::Left => "Left"@,
        KeyCode::Right => "Right"@,
        KeyCode::Home => "Home"@,
        KeyCode::End => "End"@,
        KeyCode::PageUp => "PageUp"@,
        KeyCode::PageDown => "PageDown"@,
        KeyCode::F(n) => seq!['F'] + decimal_text(n as nat),
        KeyCode::Null => "Null"@,
        KeyCode::Insert => "Insert"@,
        KeyCode::BackTab => "BackTab"@,
        KeyCode::Other => "Other"@,
    }
}

/// The bindings of this scheme.
pub struct Keymap {
    map: Vec<(Key, Action)>,
}

impl Keymap {
    /// The table of bindings, in the order in which they were made.
    pub closed spec fn map_view(&self) -> Seq<(Key, Action)> {
        self.map@
    }

    /// Builds the bindings from the configured key names; later bindings of a key win.
    pub fn from_config(keys: &Keys) -> (r: Self)
        requires
            keys.wf(),
        ensures
            r.map_view() == plain_table(*keys, BINDING_COUNT as int),
    {
        let mut map: Vec<(Key, Action)> = Vec::new();
        let mut i: usize = 0;
        while i < BINDING_COUNT
            invariant
                i <= BINDING_COUNT,
                keys.wf(),
                map@ == plain_table(*keys, i as int),
            decreases BINDING_COUNT - i,
        {
            let (k, a) = binding(i);
            push_plain_bindings(keys.get(k), a, &mut map);
            i += 1;
        }
        Keymap { map }
    }

    /// The action bound to `key`, the last binding winning.
    pub fn lookup(&self, key: Key) -> (r: Option<Action>)
        ensures
            r == last_binding(self.map_view(), key),
    {
        let mut i: usize = self.map.len();
        assert(self.map@.subrange(0, self.map@.len() as int) == self.map@);
        while i > 0
            invariant
                i <= self.map@.len(),
                last_binding(self.map@, key) == last_binding(self.map@.subrange(0, i as int), key),
            decreases i,
        {
            assert(self.map@.subrange(0, i as int).drop_last() == self.map@.subrange(0, i - 1));
            if self.map[i - 1].0 == key {
                return Some(self.map[i - 1].1);
            }
            i -= 1;
        }
        None
    }

    /// The name of a key code (see `keycode_text`).
    pub fn keycode_to_str(code: &KeyCode) -> (r: String)
        ensures
            r@ == keycode_text(*code),
    {
        match code {
            KeyCode::Char(c) => {
                let mut s = String::new();
                push_char(&mut s, *c);
                s
            },
            KeyCode::Enter => String::from_str("Enter"),
            KeyCode::Esc => String::from_str("Esc"),
            KeyCode::Backspace => String::from_str("Backspace"),
            KeyCode::Tab => String::from_str("Tab"),
            KeyCode::Delete => String::from_str("Delete"),
            KeyCode::Up => String::from_str("Up"),
            KeyCode::Down => String::from_str("Down"),
            KeyCode::Left => String::from_str("Left"),
            KeyCode::Right => String::from_str("Right"),
            KeyCode::Home => String::from_str("Home"),
            KeyCode::End => String::from_str("End"),
            KeyCode::PageUp => String::from_str("PageUp"),
            KeyCode::PageDown => String::from_str("PageDown"),
            KeyCode::F(n) => {
                let digits = decimal_string(*n as u64);
                let mut s = String::new();
                push_char(&mut s, 'F');
                let ds = chars_of(digits.as_str());
                let mut i: usize = 0;
                while i < ds.len()
                    invariant
                        i <= ds@.len(),
                        s@ == seq!['F'] + ds@.subrange(0, i as int),
                    decreases ds@.len() - i,
                {
                    push_char(&mut s, ds[i]);
                    assert(ds@.subrange(0, i + 1) == ds@.subrange(0, i as int).push(ds@[i as int]));
                    i += 1;
                }
                assert(ds@.subrange(0, ds@.len() as int) == ds@);
                s
            },
            KeyCode::Null => String::from_str("Null"),
            KeyCode::Insert => String::from_str("Insert"),
            KeyCode::BackTab => String::from_str("BackTab"),
            KeyCode::Other => String::from_str("Other"),
        }
    }
}

} // verus!
