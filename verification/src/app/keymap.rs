//! Keys and key bindings: the actions of the application, the parsing of key texts such as
//! `<c-f>` or `ctrl+shift+k`, the keymap built from the configuration, and the recognizer of
//! two-key prefix commands (`g` then a key, the sort key then a key).

use crate::config::input::{InputKeys, Keys};
use crate::engine::sort::SortMode;
use crate::utils::collections::{last_binding, texts};
use crate::utils::clock::{duration_at_most, instant_duration_since, instant_now};
use crate::keymap::keycode_text;
use crate::utils::{
    all_ascii, chars_of, decimal_text, digit_char, lowered_text, string_of, text_eq, to_lowercase,
};
use std::time::{Duration, Instant};
use vstd::prelude::*;

verus! {

/// The key of a key press.
#[derive(Clone, Copy, PartialEq, Eq, Structural, Debug)]
pub enum KeyCode {
    Char(char),
    F(u8),
    Up,
    Down,
    Left,
    Right,
    Enter,
    Esc,
    Backspace,
    Tab,
    BackTab,
    Delete,
    Home,
    End,
    PageUp,
    PageDown,
    Insert,
    Null,
    Other,
}

/// The modifier keys held during a key press.
#[derive(Clone, Copy, PartialEq, Eq, Structural, Debug)]
pub struct KeyModifiers {
    pub shift: bool,
    pub control: bool,
    pub alt: bool,
    pub super_key: bool,
    pub hyper: bool,
    pub meta: bool,
}

/// No modifier.
pub open spec fn no_mods() -> KeyModifiers {
    KeyModifiers { shift: false, control: false, alt: false, super_key: false, hyper: false, meta: false }
}

impl KeyModifiers {
    /// No modifier.
    pub fn none() -> (r: Self)
        ensures
            r == no_mods(),
    {
        KeyModifiers { shift: false, control: false, alt: false, super_key: false, hyper: false, meta: false }
    }

    /// Whether no modifier is held.
    pub fn is_empty(&self) -> (r: bool)
        ensures
            r == (*self == no_mods()),
    {
        !self.shift && !self.control && !self.alt && !self.super_key && !self.hyper && !self.meta
    }
}

/// A key with its modifiers, as used in bindings.
#[derive(Clone, Copy, PartialEq, Eq, Structural, Debug)]
pub struct Key {
    pub code: KeyCode,
    pub modifiers: KeyModifiers,
}

/// `s` without its leading `c`s.
pub open spec fn drop_leading(s: Seq<char>, c: char) -> Seq<char>
    decreases s.len(),
{
    if s.len() > 0 && s[0] == c {
        drop_leading(s.drop_first(), c)
    } else {
        s
    }
}

/// `s` without its trailing `c`s.
pub open spec fn drop_trailing(s: Seq<char>, c: char) -> Seq<char>
    decreases s.len(),
{
    if s.len() > 0 && s.last() == c {
        drop_trailing(s.drop_last(), c)
    } else {
        s
    }
}

/// The pieces of `s` between occurrences of `sep` (`str::split`): always at least one piece.
pub open spec fn split_on(s: Seq<char>, sep: char) -> Seq<Seq<char>>
    decreases s.len(),
{
    if s.len() == 0 {
        seq![Seq::<char>::empty()]
    } else {
        let p = split_on(s.drop_last(), sep);
        if s.last() == sep {
            p.push(Seq::empty())
        } else {
            p.update(p.len() - 1, p.last().push(s.last()))
        }
    }
}

/// `s` with every `a` replaced by `b`.
pub open spec fn replace_char(s: Seq<char>, a: char, b: char) -> Seq<char> {
    s.map_values(|c: char| if c == a { b } else { c })
}

/// A modifier named in a bracketed prefix such as the `c` of `<c-x>`.
pub open spec fn bracket_modifier(word: Seq<char>, m: KeyModifiers) -> Option<KeyModifiers> {
    let w = lowered_text(word);
    if w == "c"@ || w == "ctrl"@ {
        Some(KeyModifiers { control: true, ..m })
    } else if w == "a"@ || w == "m"@ || w == "alt"@ {
        Some(KeyModifiers { alt: true, ..m })
    } else if w == "s"@ || w == "shift"@ {
        Some(KeyModifiers { shift: true, ..m })
    } else {
        None
    }
}

/// The modifiers named by `parts[k..n]`, added to `m`; `None` if one is unknown.
pub open spec fn bracket_modifiers(parts: Seq<Seq<char>>, k: int, n: int, m: KeyModifiers) -> Option<KeyModifiers>
    decreases n - k,
{
    if k >= n {
        Some(m)
    } else {
        match bracket_modifier(parts[k], m) {
            Some(m2) => bracket_modifiers(parts, k + 1, n, m2),
            None => None,
        }
    }
}

/// The key that a lowercase word names, such as `up` or `pgdn`.
pub open spec fn named_key(w: Seq<char>) -> Option<KeyCode> {
    if w == "up"@ {
        Some(KeyCode::Up)
    } else if w == "down"@ {
        Some(KeyCode::Down)
    } else if w == "left"@ {
        Some(KeyCode::Left)
    } else if w == "right"@ {
        Some(KeyCode::Right)
    } else if w == "enter"@ {
        Some(KeyCode::Enter)
    } else if w == "esc"@ {
        Some(KeyCode::Esc)
    } else if w == "backspace"@ || w == "back"@ {
        Some(KeyCode::Backspace)
    } else if w == "tab"@ {
        Some(KeyCode::Tab)
    } else if w == "space"@ || w == "spc"@ {
        Some(KeyCode::Char(' '))
    } else if w == "page_up"@ || w == "pageup"@ || w == "pgup"@ {
        Some(KeyCode::PageUp)
    } else if w == "page_down"@ || w == "pagedown"@ || w == "pgdn"@ {
        Some(KeyCode::PageDown)
    } else if w == "home"@ {
        Some(KeyCode::Home)
    } else if w == "end"@ {
        Some(KeyCode::End)
    } else {
        None
    }
}

/// All characters of `s` are ASCII digits.
pub open spec fn all_digits(s: Seq<char>) -> bool {
    forall|i: int| 0 <= i < s.len() ==> '0' <= #[trigger] s[i] <= '9'
}

/// The number that a run of decimal digits spells.
pub open spec fn decimal_value(s: Seq<char>) -> int
    decreases s.len(),
{
    if s.len() == 0 {
        0
    } else {
        decimal_value(s.drop_last()) * 10 + ((s.last() as u32) - 48)
    }
}

/// ASCII uppercase of a character.
pub open spec fn upper_char(c: char) -> char {
    if 'a' <= c <= 'z' {
        ((c as u32) - 32) as char
    } else {
        c
    }
}

/// Reads one `+`-separated word of a key text into the modifiers `m` and key `code` read so
/// far: a modifier word adds a modifier, a key word or a single ASCII character sets the key
/// (a character is upper-cased when shift is held), `f` and digits name a function key, an
/// empty word changes nothing; anything else, or a function key number above 255, fails.
pub open spec fn parse_word(part: Seq<char>, m: KeyModifiers, code: Option<KeyCode>) -> Option<(KeyModifiers, Option<KeyCode>)> {
    let low = lowered_text(part);
    if low == "ctrl"@ || low == "control"@ {
        Some((KeyModifiers { control: true, ..m }, code))
    } else if low == "alt"@ || low == "meta"@ {
        Some((KeyModifiers { alt: true, ..m }, code))
    } else if low == "shift"@ {
        Some((KeyModifiers { shift: true, ..m }, code))
    } else if named_key(low) is Some {
        Some((m, named_key(low)))
    } else if part.len() == 1 && part[0] <= '\u{7f}' {
        Some((m, Some(KeyCode::Char(if m.shift { upper_char(part[0]) } else { part[0] }))))
    } else if low.len() > 1 && low[0] == 'f' && all_digits(low.drop_first()) {
        if decimal_value(low.drop_first()) <= 255 {
            Some((m, Some(KeyCode::F(decimal_value(low.drop_first()) as u8))))
        } else {
            None
        }
    } else if part.len() == 0 {
        Some((m, code))
    } else {
        None
    }
}

/// Reads the words `parts[k..]` in turn (see `parse_word`), starting from `m` and `code`.
pub open spec fn parse_words(parts: Seq<Seq<char>>, k: int, m: KeyModifiers, code: Option<KeyCode>) -> Option<(KeyModifiers, Option<KeyCode>)>
    decreases parts.len() - k,
{
    if k < 0 || k >= parts.len() {
        Some((m, code))
    } else {
        match parse_word(parts[k], m, code) {
            Some((m2, code2)) => parse_words(parts, k + 1, m2, code2),
            None => None,
        }
    }
}

/// The key that a key text names, if it names one: `<`…`>` brackets are stripped, and in
/// brackets the words before the last `-` are modifiers (`<c-s-x>`); then the text is read
/// as `+`- or `-`-separated words.
pub open spec fn parse_key_spec(s: Seq<char>) -> Option<Key> {
    let bracketed = s.len() > 0 && s[0] == '<' && s.last() == '>';
    let input = drop_trailing(drop_leading(s, '<'), '>');
    let first: Option<(KeyModifiers, Seq<char>)> = if bracketed && input.contains('-') {
        let parts = split_on(input, '-');
        match bracket_modifiers(parts, 0, parts.len() - 1, no_mods()) {
            Some(m) => Some((m, parts.last())),
            None => None,
        }
    } else {
        Some((no_mods(), input))
    };
    match first {
        None => None,
        Some((m0, rest)) => match parse_words(split_on(replace_char(rest, '-', '+'), '+'), 0, m0, None) {
            Some((m, Some(code))) => Some(Key { code, modifiers: m }),
            _ => None,
        },
    }
}


/// The views of a sequence of character vectors.
pub open spec fn char_views(v: Seq<Vec<char>>) -> Seq<Seq<char>> {
    v.map_values(|x: Vec<char>| x@)
}

/// Splits `s` at every `sep` (`str::split`).
fn split_chars(s: &Vec<char>, sep: char) -> (r: Vec<Vec<char>>)
    ensures
        char_views(r@) == split_on(s@, sep),
{
    let mut done: Vec<Vec<char>> = Vec::new();
    let mut cur: Vec<char> = Vec::new();
    let mut i: usize = 0;
    while i < s.len()
        invariant
            i <= s@.len(),
            split_on(s@.subrange(0, i as int), sep) == char_views(done@).push(cur@),
        decreases s@.len() - i,
    {
        let c = s[i];
        let ghost before = s@.subrange(0, i as int);
        assert(s@.subrange(0, i + 1).drop_last() == before);
        assert(s@.subrange(0, i + 1).last() == c);
        if c == sep {
            let full = cur;
            done.push(full);
            cur = Vec::new();
            assert(char_views(done@) == char_views(done@.drop_last()).push(done@.last()@));
        } else {
            cur.push(c);
            assert(char_views(done@).push(cur@) == split_on(before, sep).update(
                split_on(before, sep).len() - 1,
                split_on(before, sep).last().push(c),
            ));
        }
        i += 1;
    }
    assert(s@.subrange(0, s@.len() as int) == s@);
    done.push(cur);
    assert(char_views(done@) == char_views(done@.drop_last()).push(done@.last()@));
    done
}

/// `s` without its leading and trailing brackets: the index range that remains.
fn strip_brackets(s: &Vec<char>) -> (r: (usize, usize))
    ensures
        r.0 <= r.1 <= s@.len(),
        s@.subrange(r.0 as int, r.1 as int) == drop_trailing(drop_leading(s@, '<'), '>'),
{
    let n = s.len();
    let mut lo: usize = 0;
    assert(s@.subrange(0, n as int) == s@);
    while lo < n && s[lo] == '<'
        invariant
            lo <= n == s@.len(),
            drop_leading(s@, '<') == drop_leading(s@.subrange(lo as int, n as int), '<'),
        decreases n - lo,
    {
        assert(s@.subrange(lo as int, n as int).drop_first() == s@.subrange(lo + 1, n as int));
        lo += 1;
    }
    assert(drop_leading(s@, '<') == s@.subrange(lo as int, n as int));
    let mut hi: usize = n;
    while hi > lo && s[hi - 1] == '>'
        invariant
            lo <= hi <= n == s@.len(),
            drop_leading(s@, '<') == s@.subrange(lo as int, n as int),
            drop_trailing(drop_leading(s@, '<'), '>') == drop_trailing(s@.subrange(lo as int, hi as int), '>'),
        decreases hi - lo,
    {
        assert(s@.subrange(lo as int, hi as int).drop_last() == s@.subrange(lo as int, hi - 1));
        hi -= 1;
    }
    (lo, hi)
}

/// Whether `c` occurs in `s[from..to]`.
fn range_contains(s: &Vec<char>, from: usize, to: usize, c: char) -> (r: bool)
    requires
        from <= to <= s@.len(),
    ensures
        r == s@.subrange(from as int, to as int).contains(c),
{
    let mut i = from;
    while i < to
        invariant
            from <= i <= to <= s@.len(),
            forall|j: int| from <= j < i ==> s@[j] != c,
        decreases to - i,
    {
        if s[i] == c {
            assert(s@.subrange(from as int, to as int)[i - from] == c);
            return true;
        }
        i += 1;
    }
    false
}

/// The modifier that a bracketed prefix word names, added to `m`.
fn bracket_modifier_exec(word: &Vec<char>, m: KeyModifiers) -> (r: Option<KeyModifiers>)
    ensures
        r == bracket_modifier(word@, m),
{
    let w = string_of(word.as_slice());
    let low = to_lowercase(w.as_str());
    let l = low.as_str();
    if text_eq(l, "c") || text_eq(l, "ctrl") {
        Some(KeyModifiers { control: true, ..m })
    } else if text_eq(l, "a") || text_eq(l, "m") || text_eq(l, "alt") {
        Some(KeyModifiers { alt: true, ..m })
    } else if text_eq(l, "s") || text_eq(l, "shift") {
        Some(KeyModifiers { shift: true, ..m })
    } else {
        None
    }
}

/// The key that a lowercase word names.
fn named_key_exec(w: &str) -> (r: Option<KeyCode>)
    ensures
        r == named_key(w@),
{
    if text_eq(w, "up") {
        Some(KeyCode::Up)
    } else if text_eq(w, "down") {
        Some(KeyCode::Down)
    } else if text_eq(w, "left") {
        Some(KeyCode::Left)
    } else if text_eq(w, "right") {
        Some(KeyCode::Right)
    } else if text_eq(w, "enter") {
        Some(KeyCode::Enter)
    } else if text_eq(w, "esc") {
        Some(KeyCode::Esc)
    } else if text_eq(w, "backspace") || text_eq(w, "back") {
        Some(KeyCode::Backspace)
    } else if text_eq(w, "tab") {
        Some(KeyCode::Tab)
    } else if text_eq(w, "space") || text_eq(w, "spc") {
        Some(KeyCode::Char(' '))
    } else if text_eq(w, "page_up") || text_eq(w, "pageup") || text_eq(w, "pgup") {
        Some(KeyCode::PageUp)
    } else if text_eq(w, "page_down") || text_eq(w, "pagedown") || text_eq(w, "pgdn") {
        Some(KeyCode::PageDown)
    } else if text_eq(w, "home") {
        Some(KeyCode::Home)
    } else if text_eq(w, "end") {
        Some(KeyCode::End)
    } else {
        None
    }
}

/// A decimal value of digits is at least that of any of its prefixes.
pub(crate) proof fn lemma_decimal_prefix_le(s: Seq<char>, j: int)
    requires
        all_digits(s),
        0 <= j <= s.len(),
    ensures
        0 <= decimal_value(s.subrange(0, j)) <= decimal_value(s),
    decreases s.len(),
{
    if j == s.len() {
        assert(s.subrange(0, j) == s);
        if s.len() > 0 {
            lemma_decimal_prefix_le(s.drop_last(), j - 1);
            assert(s.drop_last().subrange(0, j - 1) == s.drop_last());
        }
    } else {
        lemma_decimal_prefix_le(s.drop_last(), j);
        assert(s.drop_last().subrange(0, j) == s.subrange(0, j));
        lemma_decimal_prefix_le(s.drop_last(), s.len() - 1);
        assert(s.drop_last().subrange(0, s.len() - 1) == s.drop_last());
    }
}

/// The number of a function key word `f<digits>`, when it is at most 255.
fn function_key_number(low: &Vec<char>) -> (r: Option<u8>)
    requires
        low@.len() > 1,
        all_digits(low@.drop_first()),
    ensures
        r == (if decimal_value(low@.drop_first()) <= 255 {
            Some(decimal_value(low@.drop_first()) as u8)
        } else {
            None
        }),
{
    let ghost d = low@.drop_first();
    let mut v: u32 = 0;
    let mut j: usize = 1;
    while j < low.len()
        invariant
            1 <= j <= low@.len(),
            d == low@.drop_first(),
            all_digits(d),
            v == decimal_value(d.subrange(0, j - 1)),
            v <= 255,
        decreases low@.len() - j,
    {
        let c = low[j];
        assert(d[j - 1] == c);
        assert(d.subrange(0, j as int).drop_last() == d.subrange(0, j - 1));
        let digit: u32 = (c as u32) - 48;
        let next: u32 = v * 10 + digit;
        if next > 255 {
            proof {
                lemma_decimal_prefix_le(d, j as int);
            }
            return None;
        }
        v = next;
        j += 1;
    }
    assert(d.subrange(0, d.len() as int) == d);
    Some(v as u8)
}

/// ASCII uppercase of a character.
fn upper_char_exec(c: char) -> (r: char)
    ensures
        r == upper_char(c),
{
    if 'a' <= c && c <= 'z' {
        let b: u8 = (c as u8) - 32;
        b as char
    } else {
        c
    }
}

/// Whether every character of `s` from index 1 on is an ASCII digit.
fn digits_after_first(s: &Vec<char>) -> (r: bool)
    requires
        s@.len() >= 1,
    ensures
        r == all_digits(s@.drop_first()),
{
    let mut j: usize = 1;
    while j < s.len()
        invariant
            1 <= j <= s@.len(),
            forall|i: int| 1 <= i < j ==> '0' <= #[trigger] s@[i] <= '9',
        decreases s@.len() - j,
    {
        if !('0' <= s[j] && s[j] <= '9') {
            assert(s@.drop_first()[j - 1] == s@[j as int]);
            return false;
        }
        j += 1;
    }
    assert forall|i: int| 0 <= i < s@.drop_first().len() implies '0' <= #[trigger] s@.drop_first()[i] <= '9' by {
        assert(s@.drop_first()[i] == s@[i + 1]);
    }
    true
}

/// Reads one word of a key text (see `parse_word`).
fn parse_word_exec(part: &Vec<char>, m: KeyModifiers, code: Option<KeyCode>) -> (r: Option<(KeyModifiers, Option<KeyCode>)>)
    ensures
        r == parse_word(part@, m, code),
{
    let ps_str = string_of(part.as_slice());
    let low_s = to_lowercase(ps_str.as_str());
    let l = low_s.as_str();
    let low = chars_of(l);
    if text_eq(l, "ctrl") || text_eq(l, "control") {
        Some((KeyModifiers { control: true, ..m }, code))
    } else if text_eq(l, "alt") || text_eq(l, "meta") {
        Some((KeyModifiers { alt: true, ..m }, code))
    } else if text_eq(l, "shift") {
        Some((KeyModifiers { shift: true, ..m }, code))
    } else {
        let named = named_key_exec(l);
        if named.is_some() {
            Some((m, named))
        } else if part.len() == 1 && part[0] <= '\u{7f}' {
            let c = if m.shift { upper_char_exec(part[0]) } else { part[0] };
            Some((m, Some(KeyCode::Char(c))))
        } else if low.len() > 1 && low[0] == 'f' && digits_after_first(&low) {
            match function_key_number(&low) {
                Some(n) => Some((m, Some(KeyCode::F(n)))),
                None => None,
            }
        } else if part.len() == 0 {
            Some((m, code))
        } else {
            None
        }
    }
}

/// Reads the `+`-separated words of a key text (see `parse_words`).
fn parse_words_exec(parts: &Vec<Vec<char>>, m0: KeyModifiers) -> (r: Option<(KeyModifiers, Option<KeyCode>)>)
    ensures
        r == parse_words(char_views(parts@), 0, m0, None),
{
    let ghost ps = char_views(parts@);
    let mut m = m0;
    let mut code: Option<KeyCode> = None;
    let mut k: usize = 0;
    while k < parts.len()
        invariant
            k <= parts@.len(),
            ps == char_views(parts@),
            ps.len() == parts@.len(),
            parse_words(ps, 0, m0, None) == parse_words(ps, k as int, m, code),
        decreases parts@.len() - k,
    {
        assert(ps[k as int] == parts@[k as int]@);
        match parse_word_exec(&parts[k], m, code) {
            Some((m2, c2)) => {
                m = m2;
                code = c2;
            },
            None => {
                return None;
            },
        }
        k += 1;
    }
    proof {
        lemma_parse_words_end(ps, m, code);
    }
    Some((m, code))
}

/// The end of the words.
proof fn lemma_parse_words_end(parts: Seq<Seq<char>>, m: KeyModifiers, code: Option<KeyCode>)
    ensures
        parse_words(parts, parts.len() as int, m, code) == Some((m, code)),
{
}

/// Parses a key text such as `<c-f>`, `ctrl+shift+k`, `pgdn` or `f5` into a key.
#[verifier::loop_isolation(false)]
pub fn parse_key(s: &str) -> (r: Option<Key>)
    ensures
        r == parse_key_spec(s@),
{
    let cs = chars_of(s);
    let n = cs.len();
    let bracketed = n > 0 && cs[0] == '<' && cs[n - 1] == '>';
    let (lo, hi) = strip_brackets(&cs);
    let ghost input = drop_trailing(drop_leading(s@, '<'), '>');
    let mut m0 = KeyModifiers::none();
    let mut rest: Vec<char> = Vec::new();
    if bracketed && range_contains(&cs, lo, hi, '-') {
        let mut inner: Vec<char> = Vec::new();
        let mut i = lo;
        while i < hi
            invariant
                lo <= i <= hi <= cs@.len(),
                inner@ == cs@.subrange(lo as int, i as int),
            decreases hi - i,
        {
            inner.push(cs[i]);
            i += 1;
        }
        assert(inner@ == input);
        let parts = split_chars(&inner, '-');
        let ghost pv = char_views(parts@);
        assert(pv.len() == parts@.len());
        assert(pv.len() >= 1) by {
            lemma_split_nonempty(input, '-');
        }
        let last = parts.len() - 1;
        let mut j: usize = 0;
        while j < last
            invariant
                j <= last,
                last + 1 == parts@.len(),
                pv == char_views(parts@),
                pv.len() == parts@.len(),
                bracket_modifiers(pv, 0, last as int, no_mods()) == bracket_modifiers(pv, j as int, last as int, m0),
            decreases last - j,
        {
            assert(pv[j as int] == parts@[j as int]@);
            match bracket_modifier_exec(&parts[j], m0) {
                Some(m2) => {
                    m0 = m2;
                },
                None => {
                    assert(bracket_modifiers(pv, 0, last as int, no_mods()) is None);
                    assert(pv == split_on(input, '-'));
                    return None;
                },
            }
            j += 1;
        }
        let mut t: usize = 0;
        while t < parts[last].len()
            invariant
                last + 1 == parts@.len(),
                t <= parts@[last as int]@.len(),
                rest@ == parts@[last as int]@.subrange(0, t as int),
            decreases parts@[last as int]@.len() - t,
        {
            rest.push(parts[last][t]);
            t += 1;
        }
        assert(rest@ == pv.last());
    } else {
        let mut i = lo;
        while i < hi
            invariant
                lo <= i <= hi <= cs@.len(),
                rest@ == cs@.subrange(lo as int, i as int),
            decreases hi - i,
        {
            rest.push(cs[i]);
            i += 1;
        }
        assert(rest@ == input);
    }
    let ghost rest0 = rest@;
    let mut q: usize = 0;
    while q < rest.len()
        invariant
            q <= rest@.len() == rest0.len(),
            forall|j: int| 0 <= j < q ==> rest@[j] == (if rest0[j] == '-' { '+' } else { rest0[j] }),
            forall|j: int| q <= j < rest@.len() ==> rest@[j] == rest0[j],
        decreases rest@.len() - q,
    {
        if rest[q] == '-' {
            rest.set(q, '+');
        }
        q += 1;
    }
    assert(rest@ == replace_char(rest0, '-', '+'));
    let words = split_chars(&rest, '+');
    match parse_words_exec(&words, m0) {
        Some((m, Some(code))) => Some(Key { code, modifiers: m }),
        _ => None,
    }
}

/// Splitting a text in which `sep` does not occur gives the text itself as the only piece.
proof fn lemma_split_without_sep(s: Seq<char>, sep: char)
    requires
        forall|i: int| 0 <= i < s.len() ==> s[i] != sep,
    ensures
        split_on(s, sep) == seq![s],
    decreases s.len(),
{
    if s.len() > 0 {
        let p = split_on(s.drop_last(), sep);
        lemma_split_without_sep(s.drop_last(), sep);
        assert(s.drop_last().push(s.last()) == s);
        assert(p.update(p.len() - 1, p.last().push(s.last())) =~= seq![s]);
    } else {
        assert(s =~= Seq::<char>::empty());
    }
}

/// A single word without `<`…`>` brackets, `-` or `+` is read by `parse_word` alone.
proof fn lemma_plain_word_parse(s: Seq<char>)
    requires
        s.len() > 0,
        s[0] != '<',
        s.last() != '>',
        forall|i: int| 0 <= i < s.len() ==> s[i] != '-' && s[i] != '+',
    ensures
        parse_key_spec(s) == (match parse_word(s, no_mods(), None) {
            Some((m, Some(code))) => Some(Key { code, modifiers: m }),
            _ => None,
        }),
{
    assert(drop_leading(s, '<') == s);
    assert(drop_trailing(s, '>') == s);
    assert(!s.contains('-'));
    assert(replace_char(s, '-', '+') =~= s);
    lemma_split_without_sep(s, '+');
    reveal_with_fuel(parse_words, 2);
}

/// The name of a named key (`Left`, `PageUp`, …), and the same name in lower case, are read
/// back as that key with no modifier: `left` is the Left arrow and `right` the Right arrow.
pub proof fn lemma_key_names_read_back(c: KeyCode)
    requires
        c is Up || c is Down || c is Left || c is Right || c is Enter || c is Esc || c is Backspace
            || c is Tab || c is Home || c is End || c is PageUp || c is PageDown,
    ensures
        parse_key_spec(keycode_text(c)) == Some(Key { code: c, modifiers: no_mods() }),
        parse_key_spec(lowered_text(keycode_text(c))) == Some(Key { code: c, modifiers: no_mods() }),
{
    reveal_strlit("ctrl");
    reveal_strlit("control");
    reveal_strlit("alt");
    reveal_strlit("meta");
    reveal_strlit("shift");
    reveal_strlit("up");
    reveal_strlit("down");
    reveal_strlit("left");
    reveal_strlit("right");
    reveal_strlit("enter");
    reveal_strlit("esc");
    reveal_strlit("backspace");
    reveal_strlit("back");
    reveal_strlit("tab");
    reveal_strlit("space");
    reveal_strlit("spc");
    reveal_strlit("page_up");
    reveal_strlit("pageup");
    reveal_strlit("pgup");
    reveal_strlit("page_down");
    reveal_strlit("pagedown");
    reveal_strlit("pgdn");
    reveal_strlit("home");
    reveal_strlit("end");
    reveal_strlit("Up");
    reveal_strlit("Down");
    reveal_strlit("Left");
    reveal_strlit("Right");
    reveal_strlit("Enter");
    reveal_strlit("Esc");
    reveal_strlit("Backspace");
    reveal_strlit("Tab");
    reveal_strlit("Home");
    reveal_strlit("End");
    reveal_strlit("PageUp");
    reveal_strlit("PageDown");
    let s = keycode_text(c);
    let low: Seq<char> = match c {
        KeyCode::Up => "up"@,
        KeyCode::Down => "down"@,
        KeyCode::Left => "left"@,
        KeyCode::Right => "right"@,
        KeyCode::Enter => "enter"@,
        KeyCode::Esc => "esc"@,
        KeyCode::Backspace => "backspace"@,
        KeyCode::Tab => "tab"@,
        KeyCode::Home => "home"@,
        KeyCode::End => "end"@,
        KeyCode::PageUp => "pageup"@,
        _ => "pagedown"@,
    };
    assert(all_ascii(s));
    assert(lowered_text(s) =~= low);
    assert(all_ascii(low));
    assert(lowered_text(low) =~= low);
    assert(named_key(low) == Some(c));
    lemma_plain_word_parse(s);
    lemma_plain_word_parse(low);
}

/// The other words for keys read as the keys they stand for: `back` is Backspace, `space`
/// and `spc` the space character, `page_up` and `pgup` Page Up, `page_down` and `pgdn`
/// Page Down, each with no modifier.
pub proof fn lemma_key_aliases_read_back(w: Seq<char>, c: KeyCode)
    requires
        (w == "back"@ && c == KeyCode::Backspace) || (w == "space"@ && c == KeyCode::Char(' '))
            || (w == "spc"@ && c == KeyCode::Char(' ')) || (w == "page_up"@ && c == KeyCode::PageUp)
            || (w == "pgup"@ && c == KeyCode::PageUp) || (w == "page_down"@ && c == KeyCode::PageDown)
            || (w == "pgdn"@ && c == KeyCode::PageDown),
    ensures
        parse_key_spec(w) == Some(Key { code: c, modifiers: no_mods() }),
{
    reveal_strlit("ctrl");
    reveal_strlit("control");
    reveal_strlit("alt");
    reveal_strlit("meta");
    reveal_strlit("shift");
    reveal_strlit("up");
    reveal_strlit("down");
    reveal_strlit("left");
    reveal_strlit("right");
    reveal_strlit("enter");
    reveal_strlit("esc");
    reveal_strlit("backspace");
    reveal_strlit("back");
    reveal_strlit("tab");
    reveal_strlit("space");
    reveal_strlit("spc");
    reveal_strlit("page_up");
    reveal_strlit("pageup");
    reveal_strlit("pgup");
    reveal_strlit("page_down");
    reveal_strlit("pagedown");
    reveal_strlit("pgdn");
    assert(all_ascii(w));
    assert(lowered_text(w) =~= w);
    assert(named_key(w) == Some(c));
    lemma_plain_word_parse(w);
}

/// Splitting `x`, a separator, then a piece `y` without separator, gives the pieces of `x`
/// followed by `y`.
proof fn lemma_split_then_piece(x: Seq<char>, y: Seq<char>, sep: char)
    requires
        forall|i: int| 0 <= i < y.len() ==> y[i] != sep,
    ensures
        split_on(x + seq![sep] + y, sep) == split_on(x, sep).push(y),
    decreases y.len(),
{
    let s = x + seq![sep] + y;
    if y.len() == 0 {
        assert(s.drop_last() =~= x);
        assert(y =~= Seq::<char>::empty());
    } else {
        lemma_split_then_piece(x, y.drop_last(), sep);
        assert(s.drop_last() =~= x + seq![sep] + y.drop_last());
        let p = split_on(x, sep).push(y.drop_last());
        assert(y.drop_last().push(y.last()) =~= y);
        assert(p.update(p.len() - 1, p.last().push(y.last())) =~= split_on(x, sep).push(y));
    }
}

/// The modifiers that a modifier word of a `+`-separated key text adds to none.
pub open spec fn plus_modifier(w: Seq<char>) -> KeyModifiers {
    if w == "ctrl"@ || w == "control"@ {
        KeyModifiers { control: true, ..no_mods() }
    } else if w == "alt"@ || w == "meta"@ {
        KeyModifiers { alt: true, ..no_mods() }
    } else {
        KeyModifiers { shift: true, ..no_mods() }
    }
}

/// A modifier word, `+` and a single ASCII character read as that character with that
/// modifier: `ctrl+x` is Control-x, `alt+x` and `meta+x` are Alt-x, and `shift+x` is Shift-X,
/// the character upper-cased.
pub proof fn lemma_modifier_plus_char(w: Seq<char>, c: char)
    requires
        w == "ctrl"@ || w == "control"@ || w == "alt"@ || w == "meta"@ || w == "shift"@,
        c <= '\u{7f}',
        c != '+',
        c != '-',
        c != '>',
    ensures
        parse_key_spec(w + seq!['+', c]) == Some(Key {
            code: KeyCode::Char(if w == "shift"@ { upper_char(c) } else { c }),
            modifiers: plus_modifier(w),
        }),
{
    reveal_strlit("ctrl");
    reveal_strlit("control");
    reveal_strlit("alt");
    reveal_strlit("meta");
    reveal_strlit("shift");
    reveal_strlit("up");
    reveal_strlit("down");
    reveal_strlit("left");
    reveal_strlit("right");
    reveal_strlit("enter");
    reveal_strlit("esc");
    reveal_strlit("backspace");
    reveal_strlit("back");
    reveal_strlit("tab");
    reveal_strlit("space");
    reveal_strlit("spc");
    reveal_strlit("page_up");
    reveal_strlit("pageup");
    reveal_strlit("pgup");
    reveal_strlit("page_down");
    reveal_strlit("pagedown");
    reveal_strlit("pgdn");
    reveal_strlit("home");
    reveal_strlit("end");
    let s = w + seq!['+', c];
    let k = seq![c];
    assert(s == w + seq!['+'] + k);
    assert(s[0] != '<');
    assert(s.last() == c);
    assert(drop_leading(s, '<') == s);
    assert(drop_trailing(s, '>') == s);
    assert(forall|i: int| 0 <= i < s.len() ==> s[i] != '-');
    assert(!s.contains('-'));
    assert(replace_char(s, '-', '+') =~= s);
    lemma_split_without_sep(w, '+');
    lemma_split_then_piece(w, k, '+');
    assert(split_on(s, '+') =~= seq![w, k]);
    assert(all_ascii(w));
    assert(lowered_text(w) =~= w);
    let m = plus_modifier(w);
    assert(parse_word(w, no_mods(), None) == Some((m, None::<KeyCode>)));
    assert(all_ascii(k));
    let low = lowered_text(k);
    assert(low.len() == 1);
    assert(named_key(low) is None);
    assert(parse_word(k, m, None) == Some((m, Some(KeyCode::Char(if m.shift { upper_char(c) } else { c })))));
    reveal_with_fuel(parse_words, 3);
}

/// The modifiers that a modifier letter in angle brackets adds to none.
pub open spec fn angle_modifier(w: Seq<char>) -> KeyModifiers {
    if w == "c"@ {
        KeyModifiers { control: true, ..no_mods() }
    } else if w == "a"@ || w == "m"@ {
        KeyModifiers { alt: true, ..no_mods() }
    } else {
        KeyModifiers { shift: true, ..no_mods() }
    }
}

/// A modifier letter, `-` and a single ASCII character in angle brackets read as that character
/// with that modifier: `<c-x>` is Control-x, `<a-x>` and `<m-x>` are Alt-x, and `<s-x>` is
/// Shift-X, the character upper-cased.
pub proof fn lemma_angle_modifier_char(w: Seq<char>, c: char)
    requires
        w == "c"@ || w == "a"@ || w == "m"@ || w == "s"@,
        c <= '\u{7f}',
        c != '+',
        c != '-',
        c != '>',
    ensures
        parse_key_spec(seq!['<'] + w + seq!['-', c, '>']) == Some(Key {
            code: KeyCode::Char(if w == "s"@ { upper_char(c) } else { c }),
            modifiers: angle_modifier(w),
        }),
{
    reveal_strlit("c");
    reveal_strlit("ctrl");
    reveal_strlit("a");
    reveal_strlit("m");
    reveal_strlit("alt");
    reveal_strlit("s");
    reveal_strlit("shift");
    reveal_strlit("control");
    reveal_strlit("meta");
    reveal_strlit("up");
    reveal_strlit("down");
    reveal_strlit("left");
    reveal_strlit("right");
    reveal_strlit("enter");
    reveal_strlit("esc");
    reveal_strlit("backspace");
    reveal_strlit("back");
    reveal_strlit("tab");
    reveal_strlit("space");
    reveal_strlit("spc");
    reveal_strlit("page_up");
    reveal_strlit("pageup");
    reveal_strlit("pgup");
    reveal_strlit("page_down");
    reveal_strlit("pagedown");
    reveal_strlit("pgdn");
    reveal_strlit("home");
    reveal_strlit("end");
    let s = seq!['<'] + w + seq!['-', c, '>'];
    let t = w + seq!['-', c, '>'];
    let input = w + seq!['-', c];
    let k = seq![c];
    assert(s.drop_first() =~= t);
    assert(drop_leading(t, '<') == t);
    assert(drop_leading(s, '<') == t);
    assert(t.drop_last() =~= input);
    assert(drop_trailing(input, '>') == input);
    assert(drop_trailing(t, '>') == input);
    assert(input[w.len() as int] == '-');
    assert(input.contains('-'));
    assert(input =~= w + seq!['-'] + k);
    lemma_split_without_sep(w, '-');
    lemma_split_then_piece(w, k, '-');
    let parts = split_on(input, '-');
    assert(parts =~= seq![w, k]);
    assert(all_ascii(w));
    assert(lowered_text(w) =~= w);
    let m = angle_modifier(w);
    assert(bracket_modifier(w, no_mods()) == Some(m));
    reveal_with_fuel(bracket_modifiers, 2);
    assert(bracket_modifiers(parts, 0, 1, no_mods()) == Some(m));
    assert(replace_char(k, '-', '+') =~= k);
    lemma_split_without_sep(k, '+');
    assert(all_ascii(k));
    let low = lowered_text(k);
    assert(low.len() == 1);
    assert(named_key(low) is None);
    assert(parse_word(k, m, None) == Some((m, Some(KeyCode::Char(if m.shift { upper_char(c) } else { c })))));
    reveal_with_fuel(parse_words, 2);
}

/// The decimal numeral of `n` is made of digits and spells `n`.
proof fn lemma_decimal_text_value(n: nat)
    ensures
        decimal_text(n).len() >= 1,
        all_digits(decimal_text(n)),
        decimal_value(decimal_text(n)) == n,
    decreases n,
{
    if n >= 10 {
        lemma_decimal_text_value(n / 10);
        let t = decimal_text(n / 10);
        let s = decimal_text(n);
        assert(s.drop_last() =~= t);
        assert(s.last() == digit_char((n % 10) as int));
        assert((digit_char((n % 10) as int) as u32) == n % 10 + 48);
        assert(n == (n / 10) * 10 + n % 10);
        assert(decimal_value(s) == decimal_value(t) * 10 + ((s.last() as u32) - 48));
    } else {
        let s = decimal_text(n);
        assert(s.drop_last() =~= Seq::<char>::empty());
        assert(decimal_value(s.drop_last()) == 0);
        assert((digit_char(n as int) as u32) == n + 48);
        assert(decimal_value(s) == decimal_value(s.drop_last()) * 10 + ((s.last() as u32) - 48));
    }
}

/// The name of a function key (`F5`), and the same in lower case (`f5`), read back as that
/// function key with no modifier.
pub proof fn lemma_function_key_names_read_back(n: u8)
    ensures
        parse_key_spec(keycode_text(KeyCode::F(n))) == Some(Key { code: KeyCode::F(n), modifiers: no_mods() }),
        parse_key_spec(lowered_text(keycode_text(KeyCode::F(n)))) == Some(Key { code: KeyCode::F(n), modifiers: no_mods() }),
{
    reveal_strlit("ctrl");
    reveal_strlit("control");
    reveal_strlit("alt");
    reveal_strlit("meta");
    reveal_strlit("shift");
    reveal_strlit("up");
    reveal_strlit("down");
    reveal_strlit("left");
    reveal_strlit("right");
    reveal_strlit("enter");
    reveal_strlit("esc");
    reveal_strlit("backspace");
    reveal_strlit("back");
    reveal_strlit("tab");
    reveal_strlit("space");
    reveal_strlit("spc");
    reveal_strlit("page_up");
    reveal_strlit("pageup");
    reveal_strlit("pgup");
    reveal_strlit("page_down");
    reveal_strlit("pagedown");
    reveal_strlit("pgdn");
    reveal_strlit("home");
    reveal_strlit("end");
    let d = decimal_text(n as nat);
    lemma_decimal_text_value(n as nat);
    let s = keycode_text(KeyCode::F(n));
    let low = seq!['f'] + d;
    assert(s == seq!['F'] + d);
    assert(forall|i: int| 0 <= i < d.len() ==> '0' <= #[trigger] d[i] <= '9');
    assert(forall|i: int| 1 <= i < s.len() ==> s[i] == d[i - 1]);
    assert(forall|i: int| 1 <= i < low.len() ==> low[i] == d[i - 1]);
    assert(all_ascii(s));
    assert(lowered_text(s) =~= low);
    assert(all_ascii(low));
    assert(lowered_text(low) =~= low);
    assert(low.drop_first() =~= d);
    assert(named_key(low) is None);
    assert(parse_word(s, no_mods(), None) == Some((no_mods(), Some(KeyCode::F(n)))));
    assert(parse_word(low, no_mods(), None) == Some((no_mods(), Some(KeyCode::F(n)))));
    lemma_plain_word_parse(s);
    lemma_plain_word_parse(low);
}

/// The name of a character key, the character itself, reads back as that key with no
/// modifier, for every ASCII character but the separators `+` and `-` and the brackets `<`
/// and `>`.
pub proof fn lemma_char_names_read_back(c: char)
    requires
        c <= '\u{7f}',
        c != '+',
        c != '-',
        c != '<',
        c != '>',
    ensures
        parse_key_spec(keycode_text(KeyCode::Char(c))) == Some(Key { code: KeyCode::Char(c), modifiers: no_mods() }),
{
    reveal_strlit("ctrl");
    reveal_strlit("control");
    reveal_strlit("alt");
    reveal_strlit("meta");
    reveal_strlit("shift");
    reveal_strlit("up");
    reveal_strlit("down");
    reveal_strlit("left");
    reveal_strlit("right");
    reveal_strlit("enter");
    reveal_strlit("esc");
    reveal_strlit("backspace");
    reveal_strlit("back");
    reveal_strlit("tab");
    reveal_strlit("space");
    reveal_strlit("spc");
    reveal_strlit("page_up");
    reveal_strlit("pageup");
    reveal_strlit("pgup");
    reveal_strlit("page_down");
    reveal_strlit("pagedown");
    reveal_strlit("pgdn");
    reveal_strlit("home");
    reveal_strlit("end");
    let s = keycode_text(KeyCode::Char(c));
    assert(s == seq![c]);
    assert(all_ascii(s));
    assert(lowered_text(s).len() == 1);
    assert(named_key(lowered_text(s)) is None);
    lemma_plain_word_parse(s);
}

/// Splitting gives at least one piece.
proof fn lemma_split_nonempty(s: Seq<char>, sep: char)
    ensures
        split_on(s, sep).len() >= 1,
    decreases s.len(),
{
    if s.len() > 0 {
        lemma_split_nonempty(s.drop_last(), sep);
    }
}


/// Any action of the application: navigation, file, system or tab.
#[derive(Clone, Copy, PartialEq, Eq, Structural, Debug)]
pub enum Action {
    Nav(NavAction),
    File(FileAction),
    System(SystemAction),
    Tab(TabAction),
}

/// Navigation actions.
#[derive(Clone, Copy, PartialEq, Eq, Structural, Debug)]
pub enum NavAction {
    GoParent,
    GoIntoDir,
    GoUp,
    GoDown,
    GoToTop,
    GoToBottom,
    GoToPath,
    GoToHome,
    ToggleMarker,
    ClearMarker,
    ClearFilter,
    ClearAll,
    SelectAll,
    ScrollUp,
    ScrollDown,
}

/// File actions.
#[derive(Clone, Copy, PartialEq, Eq, Structural, Debug)]
pub enum FileAction {
    Delete,
    Copy,
    Open,
    Paste,
    Rename,
    Create,
    CreateDirectory,
    Filter,
    ShowInfo,
    Find,
    MoveFile,
    AlternateDelete,
    ClearClipboard,
}

/// Tab actions; `Switch` goes to the tab of a number.
#[derive(Clone, Copy, PartialEq, Eq, Structural, Debug)]
pub enum TabAction {
    New,
    Close,
    Next,
    Prev,
    Switch(u8),
}

/// System actions.
#[derive(Clone, Copy, PartialEq, Eq, Structural, Debug)]
pub enum SystemAction {
    Quit,
    KeyBindHelp,
}

/// What the second key of a two-key command does.
#[derive(Clone, Copy, PartialEq, Eq, Structural, Debug)]
pub enum PrefixCommand {
    Nav(NavAction),
    Sort(SortMode),
}

/// The keys that a list of key texts names, in order, skipping those that name none.
pub open spec fn parsed_keys(ts: Seq<Seq<char>>) -> Seq<Key>
    decreases ts.len(),
{
    if ts.len() == 0 {
        Seq::empty()
    } else {
        match parse_key_spec(ts.last()) {
            Some(k) => parsed_keys(ts.drop_last()).push(k),
            None => parsed_keys(ts.drop_last()),
        }
    }
}

/// The bindings of the keys named by `ts` to `a`, in order.
pub open spec fn bound_entries(ts: Seq<Seq<char>>, a: Action) -> Seq<(Key, Action)> {
    parsed_keys(ts).map_values(|k: Key| (k, a))
}

/// The bindings of the unmodified keys named by `ts` to the prefix command `p`, in order.
pub open spec fn prefix_entries(ts: Seq<Seq<char>>, p: PrefixCommand) -> Seq<(KeyCode, PrefixCommand)>
    decreases ts.len(),
{
    if ts.len() == 0 {
        Seq::empty()
    } else {
        match parse_key_spec(ts.last()) {
            Some(k) => if k.modifiers == no_mods() {
                prefix_entries(ts.drop_last(), p).push((k.code, p))
            } else {
                prefix_entries(ts.drop_last(), p)
            },
            None => prefix_entries(ts.drop_last(), p),
        }
    }
}

/// The number of configured single-key bindings.
pub const ACTION_BINDING_COUNT: usize = 34;

/// The configured single-key bindings, in the order in which they are applied.
pub open spec fn action_binding_at(i: int) -> (InputKeys, Action) {
    if i == 0 { (InputKeys::GoParent, Action::Nav(NavAction::GoParent)) }
    else if i == 1 { (InputKeys::GoIntoDir, Action::Nav(NavAction::GoIntoDir)) }
    else if i == 2 { (InputKeys::GoUp, Action::Nav(NavAction::GoUp)) }
    else if i == 3 { (InputKeys::GoDown, Action::Nav(NavAction::GoDown)) }
    else if i == 4 { (InputKeys::ToggleMarker, Action::Nav(NavAction::ToggleMarker)) }
    else if i == 5 { (InputKeys::ClearFilter, Action::Nav(NavAction::ClearFilter)) }
    else if i == 6 { (InputKeys::ClearMarkers, Action::Nav(NavAction::ClearMarker)) }
    else if i == 7 { (InputKeys::ClearAll, Action::Nav(NavAction::ClearAll)) }
    else if i == 8 { (InputKeys::GoToBottom, Action::Nav(NavAction::GoToBottom)) }
    else if i == 9 { (InputKeys::ScrollUp, Action::Nav(NavAction::ScrollUp)) }
    else if i == 10 { (InputKeys::ScrollDown, Action::Nav(NavAction::ScrollDown)) }
    else if i == 11 { (InputKeys::SelectAll, Action::Nav(NavAction::SelectAll)) }
    else if i == 12 { (InputKeys::OpenFile, Action::File(FileAction::Open)) }
    else if i == 13 { (InputKeys::Delete, Action::File(FileAction::Delete)) }
    else if i == 14 { (InputKeys::Copy, Action::File(FileAction::Copy)) }
    else if i == 15 { (InputKeys::Paste, Action::File(FileAction::Paste)) }
    else if i == 16 { (InputKeys::MoveFile, Action::File(FileAction::MoveFile)) }
    else if i == 17 { (InputKeys::Rename, Action::File(FileAction::Rename)) }
    else if i == 18 { (InputKeys::Create, Action::File(FileAction::Create)) }
    else if i == 19 { (InputKeys::CreateDirectory, Action::File(FileAction::CreateDirectory)) }
    else if i == 20 { (InputKeys::Filter, Action::File(FileAction::Filter)) }
    else if i == 21 { (InputKeys::ShowInfo, Action::File(FileAction::ShowInfo)) }
    else if i == 22 { (InputKeys::Find, Action::File(FileAction::Find)) }
    else if i == 23 { (InputKeys::ClearClipboard, Action::File(FileAction::ClearClipboard)) }
    else if i == 24 { (InputKeys::AlternateDelete, Action::File(FileAction::AlternateDelete)) }
    else if i == 25 { (InputKeys::TabNew, Action::Tab(TabAction::New)) }
    else if i == 26 { (InputKeys::TabClose, Action::Tab(TabAction::Close)) }
    else if i == 27 { (InputKeys::TabNext, Action::Tab(TabAction::Next)) }
    else if i == 28 { (InputKeys::TabPrev, Action::Tab(TabAction::Prev)) }
    else if i == 29 { (InputKeys::KeybindHelp, Action::System(SystemAction::KeyBindHelp)) }
    else { (InputKeys::Quit, Action::System(SystemAction::Quit)) }
}

/// The configured single-key binding at `i`.
fn action_binding(i: usize) -> (r: (InputKeys, Action))
    ensures
        r == action_binding_at(i as int),
{
    if i == 0 { (InputKeys::GoParent, Action::Nav(NavAction::GoParent)) }
    else if i == 1 { (InputKeys::GoIntoDir, Action::Nav(NavAction::GoIntoDir)) }
    else if i == 2 { (InputKeys::GoUp, Action::Nav(NavAction::GoUp)) }
    else if i == 3 { (InputKeys::GoDown, Action::Nav(NavAction::GoDown)) }
    else if i == 4 { (InputKeys::ToggleMarker, Action::Nav(NavAction::ToggleMarker)) }
    else if i == 5 { (InputKeys::ClearFilter, Action::Nav(NavAction::ClearFilter)) }
    else if i == 6 { (InputKeys::ClearMarkers, Action::Nav(NavAction::ClearMarker)) }
    else if i == 7 { (InputKeys::ClearAll, Action::Nav(NavAction::ClearAll)) }
    else if i == 8 { (InputKeys::GoToBottom, Action::Nav(NavAction::GoToBottom)) }
    else if i == 9 { (InputKeys::ScrollUp, Action::Nav(NavAction::ScrollUp)) }
    else if i == 10 { (InputKeys::ScrollDown, Action::Nav(NavAction::ScrollDown)) }
    else if i == 11 { (InputKeys::SelectAll, Action::Nav(NavAction::SelectAll)) }
    else if i == 12 { (InputKeys::OpenFile, Action::File(FileAction::Open)) }
    else if i == 13 { (InputKeys::Delete, Action::File(FileAction::Delete)) }
    else if i == 14 { (InputKeys::Copy, Action::File(FileAction::Copy)) }
    else if i == 15 { (InputKeys::Paste, Action::File(FileAction::Paste)) }
    else if i == 16 { (InputKeys::MoveFile, Action::File(FileAction::MoveFile)) }
    else if i == 17 { (InputKeys::Rename, Action::File(FileAction::Rename)) }
    else if i == 18 { (InputKeys::Create, Action::File(FileAction::Create)) }
    else if i == 19 { (InputKeys::CreateDirectory, Action::File(FileAction::CreateDirectory)) }
    else if i == 20 { (InputKeys::Filter, Action::File(FileAction::Filter)) }
    else if i == 21 { (InputKeys::ShowInfo, Action::File(FileAction::ShowInfo)) }
    else if i == 22 { (InputKeys::Find, Action::File(FileAction::Find)) }
    else if i == 23 { (InputKeys::ClearClipboard, Action::File(FileAction::ClearClipboard)) }
    else if i == 24 { (InputKeys::AlternateDelete, Action::File(FileAction::AlternateDelete)) }
    else if i == 25 { (InputKeys::TabNew, Action::Tab(TabAction::New)) }
    else if i == 26 { (InputKeys::TabClose, Action::Tab(TabAction::Close)) }
    else if i == 27 { (InputKeys::TabNext, Action::Tab(TabAction::Next)) }
    else if i == 28 { (InputKeys::TabPrev, Action::Tab(TabAction::Prev)) }
    else if i == 29 { (InputKeys::KeybindHelp, Action::System(SystemAction::KeyBindHelp)) }
    else { (InputKeys::Quit, Action::System(SystemAction::Quit)) }
}

/// The single-key table that the first `n` configured bindings make.
pub open spec fn action_table(keys: Keys, n: int) -> Seq<(Key, Action)>
    decreases n,
{
    if n <= 0 {
        Seq::empty()
    } else {
        action_table(keys, n - 1) + bound_entries(keys.bound(action_binding_at(n - 1).0), action_binding_at(n - 1).1)
    }
}

/// The `g`-prefix commands, in the order in which they are bound.
pub open spec fn go_binding_at(i: int) -> (InputKeys, PrefixCommand) {
    if i == 0 { (InputKeys::GoToTop, PrefixCommand::Nav(NavAction::GoToTop)) }
    else if i == 1 { (InputKeys::GoToHome, PrefixCommand::Nav(NavAction::GoToHome)) }
    else { (InputKeys::GoToPath, PrefixCommand::Nav(NavAction::GoToPath)) }
}

/// The sort-prefix commands, in the order in which they are bound.
pub open spec fn sort_binding_at(i: int) -> (InputKeys, PrefixCommand) {
    if i == 0 { (InputKeys::SortByName, PrefixCommand::Sort(SortMode::Name)) }
    else if i == 1 { (InputKeys::SortByNatural, PrefixCommand::Sort(SortMode::Natural)) }
    else if i == 2 { (InputKeys::SortByModified, PrefixCommand::Sort(SortMode::Modified)) }
    else if i == 3 { (InputKeys::SortByCreated, PrefixCommand::Sort(SortMode::Created)) }
    else if i == 4 { (InputKeys::SortByAccessed, PrefixCommand::Sort(SortMode::Accessed)) }
    else if i == 5 { (InputKeys::SortBySize, PrefixCommand::Sort(SortMode::Size)) }
    else { (InputKeys::SortByExtension, PrefixCommand::Sort(SortMode::Extension)) }
}

/// The `g`-prefix command binding at `i`.
fn go_binding(i: usize) -> (r: (InputKeys, PrefixCommand))
    ensures
        r == go_binding_at(i as int),
{
    if i == 0 { (InputKeys::GoToTop, PrefixCommand::Nav(NavAction::GoToTop)) }
    else if i == 1 { (InputKeys::GoToHome, PrefixCommand::Nav(NavAction::GoToHome)) }
    else { (InputKeys::GoToPath, PrefixCommand::Nav(NavAction::GoToPath)) }
}

/// The sort-prefix command binding at `i`.
fn sort_binding(i: usize) -> (r: (InputKeys, PrefixCommand))
    ensures
        r == sort_binding_at(i as int),
{
    if i == 0 { (InputKeys::SortByName, PrefixCommand::Sort(SortMode::Name)) }
    else if i == 1 { (InputKeys::SortByNatural, PrefixCommand::Sort(SortMode::Natural)) }
    else if i == 2 { (InputKeys::SortByModified, PrefixCommand::Sort(SortMode::Modified)) }
    else if i == 3 { (InputKeys::SortByCreated, PrefixCommand::Sort(SortMode::Created)) }
    else if i == 4 { (InputKeys::SortByAccessed, PrefixCommand::Sort(SortMode::Accessed)) }
    else if i == 5 { (InputKeys::SortBySize, PrefixCommand::Sort(SortMode::Size)) }
    else { (InputKeys::SortByExtension, PrefixCommand::Sort(SortMode::Extension)) }
}

/// A prefix table that the first `n` bindings given by `at` make.
pub open spec fn prefix_table(keys: Keys, at: spec_fn(int) -> (InputKeys, PrefixCommand), n: int) -> Seq<(KeyCode, PrefixCommand)>
    decreases n,
{
    if n <= 0 {
        Seq::empty()
    } else {
        prefix_table(keys, at, n - 1) + prefix_entries(keys.bound(at(n - 1).0), at(n - 1).1)
    }
}

/// One step of reading the keys of a key list.
proof fn lemma_parsed_keys_step(ts: Seq<Seq<char>>, j: int)
    requires
        0 <= j < ts.len(),
    ensures
        parsed_keys(ts.subrange(0, j + 1)) == (match parse_key_spec(ts[j]) {
            Some(k) => parsed_keys(ts.subrange(0, j)).push(k),
            None => parsed_keys(ts.subrange(0, j)),
        }),
{
    assert(ts.subrange(0, j + 1).drop_last() == ts.subrange(0, j));
}

/// One step of reading the prefix entries of a key list.
proof fn lemma_prefix_entries_step(ts: Seq<Seq<char>>, j: int, p: PrefixCommand)
    requires
        0 <= j < ts.len(),
    ensures
        prefix_entries(ts.subrange(0, j + 1), p) == (match parse_key_spec(ts[j]) {
            Some(k) => if k.modifiers == no_mods() {
                prefix_entries(ts.subrange(0, j), p).push((k.code, p))
            } else {
                prefix_entries(ts.subrange(0, j), p)
            },
            None => prefix_entries(ts.subrange(0, j), p),
        }),
{
    assert(ts.subrange(0, j + 1).drop_last() == ts.subrange(0, j));
}

/// Appends to `out` the keys named by `list`.
fn push_parsed_keys(list: &[String], out: &mut Vec<Key>)
    ensures
        final(out)@ == old(out)@ + parsed_keys(texts(list@)),
{
    let ghost ts = texts(list@);
    let ghost start = out@;
    let mut j: usize = 0;
    while j < list.len()
        invariant
            j <= list@.len(),
            ts == texts(list@),
            ts.len() == list@.len(),
            out@ == start + parsed_keys(ts.subrange(0, j as int)),
        decreases list@.len() - j,
    {
        proof {
            lemma_parsed_keys_step(ts, j as int);
        }
        assert(ts[j as int] == list@[j as int]@);
        match parse_key(list[j].as_str()) {
            Some(k) => {
                out.push(k);
            },
            None => {},
        }
        j += 1;
    }
    assert(ts.subrange(0, list@.len() as int) == ts);
}

/// Appends to `table` the bindings of the keys named by `list` to `a`.
fn push_bindings(list: &[String], a: Action, table: &mut Vec<(Key, Action)>)
    ensures
        final(table)@ == old(table)@ + bound_entries(texts(list@), a),
{
    let ghost ts = texts(list@);
    let ghost start = table@;
    let mut j: usize = 0;
    while j < list.len()
        invariant
            j <= list@.len(),
            ts == texts(list@),
            ts.len() == list@.len(),
            table@ == start + bound_entries(ts.subrange(0, j as int), a),
        decreases list@.len() - j,
    {
        proof {
            lemma_parsed_keys_step(ts, j as int);
        }
        assert(ts[j as int] == list@[j as int]@);
        match parse_key(list[j].as_str()) {
            Some(k) => {
                table.push((k, a));
                assert(bound_entries(ts.subrange(0, j + 1), a) == bound_entries(ts.subrange(0, j as int), a).push((k, a)));
            },
            None => {},
        }
        j += 1;
    }
    assert(ts.subrange(0, list@.len() as int) == ts);
}

/// Appends to `table` the bindings of the unmodified keys named by `list` to `p`.
fn push_prefix_bindings(list: &[String], p: PrefixCommand, table: &mut Vec<(KeyCode, PrefixCommand)>)
    ensures
        final(table)@ == old(table)@ + prefix_entries(texts(list@), p),
{
    let ghost ts = texts(list@);
    let ghost start = table@;
    let mut j: usize = 0;
    while j < list.len()
        invariant
            j <= list@.len(),
            ts == texts(list@),
            ts.len() == list@.len(),
            table@ == start + prefix_entries(ts.subrange(0, j as int), p),
        decreases list@.len() - j,
    {
        proof {
            lemma_prefix_entries_step(ts, j as int, p);
        }
        assert(ts[j as int] == list@[j as int]@);
        match parse_key(list[j].as_str()) {
            Some(k) => {
                if k.modifiers.is_empty() {
                    table.push((k.code, p));
                }
            },
            None => {},
        }
        j += 1;
    }
    assert(ts.subrange(0, list@.len() as int) == ts);
}

/// Whether `key` is in `keys`.
fn contains_key(keys: &[Key], key: Key) -> (r: bool)
    ensures
        r == keys@.contains(key),
{
    let mut i: usize = 0;
    while i < keys.len()
        invariant
            i <= keys@.len(),
            forall|j: int| 0 <= j < i ==> keys@[j] != key,
        decreases keys@.len() - i,
    {
        if keys[i] == key {
            return true;
        }
        i += 1;
    }
    false
}

/// What a single-key table binds `k` to, the last binding winning.
fn table_get(t: &Vec<(Key, Action)>, k: Key) -> (r: Option<Action>)
    ensures
        r == last_binding(t@, k),
{
    let mut i: usize = t.len();
    assert(t@.subrange(0, t@.len() as int) == t@);
    while i > 0
        invariant
            i <= t@.len(),
            last_binding(t@, k) == last_binding(t@.subrange(0, i as int), k),
        decreases i,
    {
        let ghost pre = t@.subrange(0, i as int);
        assert(pre.drop_last() == t@.subrange(0, i - 1));
        if t[i - 1].0 == k {
            return Some(t[i - 1].1);
        }
        i -= 1;
    }
    None
}

/// What a prefix table binds `c` to, the last binding winning.
fn prefix_get(t: &[(KeyCode, PrefixCommand)], c: KeyCode) -> (r: Option<PrefixCommand>)
    ensures
        r == last_binding(t@, c),
{
    let mut i: usize = t.len();
    assert(t@.subrange(0, t@.len() as int) == t@);
    while i > 0
        invariant
            i <= t@.len(),
            last_binding(t@, c) == last_binding(t@.subrange(0, i as int), c),
        decreases i,
    {
        let ghost pre = t@.subrange(0, i as int);
        assert(pre.drop_last() == t@.subrange(0, i - 1));
        if t[i - 1].0 == c {
            return Some(t[i - 1].1);
        }
        i -= 1;
    }
    None
}

/// The digit that a character is, if it is an ASCII digit.
pub open spec fn digit_of(c: char) -> Option<u8> {
    if '0' <= c <= '9' {
        Some(((c as u32) - 48) as u8)
    } else {
        None
    }
}

/// What a key press means (see `Keymap::lookup`).
pub open spec fn lookup_spec(map: Seq<(Key, Action)>, key: Key) -> Option<Action> {
    match last_binding(map, key) {
        Some(a) => Some(a),
        None => match key.code {
            KeyCode::Char(c) => if key.modifiers.shift {
                last_binding(map, Key { code: key.code, modifiers: KeyModifiers { shift: false, ..key.modifiers } })
            } else if key.modifiers == no_mods() {
                match digit_of(c) {
                    Some(d) => Some(Action::Tab(TabAction::Switch(d))),
                    None => None,
                }
            } else {
                None
            },
            _ => None,
        },
    }
}

/// The key bindings built from the configuration.
pub struct Keymap {
    map: Vec<(Key, Action)>,
    gmap: Vec<(KeyCode, PrefixCommand)>,
    sortmap: Vec<(KeyCode, PrefixCommand)>,
    g_prefix: Vec<Key>,
    sort_prefix: Vec<Key>,
}

impl Keymap {
    /// The single-key table, in the order in which bindings were made.
    pub closed spec fn map_view(&self) -> Seq<(Key, Action)> {
        self.map@
    }

    /// The `g`-prefix table.
    pub closed spec fn gmap_view(&self) -> Seq<(KeyCode, PrefixCommand)> {
        self.gmap@
    }

    /// The sort-prefix table.
    pub closed spec fn sortmap_view(&self) -> Seq<(KeyCode, PrefixCommand)> {
        self.sortmap@
    }

    /// The keys that start a `g`-prefix command.
    pub closed spec fn g_prefix_view(&self) -> Seq<Key> {
        self.g_prefix@
    }

    /// The keys that start a sort-prefix command.
    pub closed spec fn sort_prefix_view(&self) -> Seq<Key> {
        self.sort_prefix@
    }

    /// Builds the key bindings from the configured key texts: each action is bound to every key
    /// its texts name (later bindings of a key win), the `g` and sort commands are bound to the
    /// unmodified keys their texts name, and the prefix keys are those the prefix texts name.
    pub fn from_config(keys: &Keys) -> (r: Self)
        requires
            keys.wf(),
        ensures
            r.map_view() == action_table(*keys, ACTION_BINDING_COUNT as int),
            r.gmap_view() == prefix_table(*keys, |i: int| go_binding_at(i), 3),
            r.sortmap_view() == prefix_table(*keys, |i: int| sort_binding_at(i), 7),
            r.g_prefix_view() == parsed_keys(keys.bound(InputKeys::PrefixGoTo)),
            r.sort_prefix_view() == parsed_keys(keys.bound(InputKeys::Sort)),
    {
        let mut sort_prefix: Vec<Key> = Vec::new();
        push_parsed_keys(keys.get(InputKeys::Sort), &mut sort_prefix);
        let mut g_prefix: Vec<Key> = Vec::new();
        push_parsed_keys(keys.get(InputKeys::PrefixGoTo), &mut g_prefix);
        let mut map: Vec<(Key, Action)> = Vec::new();
        let mut i: usize = 0;
        while i < ACTION_BINDING_COUNT
            invariant
                i <= ACTION_BINDING_COUNT,
                keys.wf(),
                map@ == action_table(*keys, i as int),
            decreases ACTION_BINDING_COUNT - i,
        {
            let (k, a) = action_binding(i);
            push_bindings(keys.get(k), a, &mut map);
            i += 1;
        }
        let ghost go_at = |i: int| go_binding_at(i);
        let mut gmap: Vec<(KeyCode, PrefixCommand)> = Vec::new();
        let mut i: usize = 0;
        while i < 3
            invariant
                i <= 3,
                keys.wf(),
                go_at == (|i: int| go_binding_at(i)),
                gmap@ == prefix_table(*keys, go_at, i as int),
            decreases 3 - i,
        {
            let (k, p) = go_binding(i);
            push_prefix_bindings(keys.get(k), p, &mut gmap);
            i += 1;
        }
        let ghost sort_at = |i: int| sort_binding_at(i);
        let mut sortmap: Vec<(KeyCode, PrefixCommand)> = Vec::new();
        let mut i: usize = 0;
        while i < 7
            invariant
                i <= 7,
                keys.wf(),
                sort_at == (|i: int| sort_binding_at(i)),
                sortmap@ == prefix_table(*keys, sort_at, i as int),
            decreases 7 - i,
        {
            let (k, p) = sort_binding(i);
            push_prefix_bindings(keys.get(k), p, &mut sortmap);
            i += 1;
        }
        Keymap { map, gmap, sortmap, g_prefix, sort_prefix }
    }

    /// The action of a key press: the key's own binding; else, for a character typed with
    /// shift, the binding of the same key without shift; else, for an unmodified digit, a
    /// switch to the tab of that number.
    pub fn lookup(&self, key: Key) -> (r: Option<Action>)
        ensures
            r == lookup_spec(self.map_view(), key),
    {
        match table_get(&self.map, key) {
            Some(a) => Some(a),
            None => match key.code {
                KeyCode::Char(c) => {
                    if key.modifiers.shift {
                        table_get(&self.map, Key { code: key.code, modifiers: KeyModifiers { shift: false, ..key.modifiers } })
                    } else if key.modifiers.is_empty() {
                        if '0' <= c && c <= '9' {
                            let d: u8 = (c as u8) - 48;
                            Some(Action::Tab(TabAction::Switch(d)))
                        } else {
                            None
                        }
                    } else {
                        None
                    }
                },
                _ => None,
            },
        }
    }

    /// The command that `code` completes after the `g` prefix.
    pub fn g_command(&self, code: KeyCode) -> (r: Option<PrefixCommand>)
        ensures
            r == last_binding(self.gmap_view(), code),
    {
        prefix_get(self.gmap.as_slice(), code)
    }

    /// The command that `code` completes after the sort prefix.
    pub fn sort_command(&self, code: KeyCode) -> (r: Option<PrefixCommand>)
        ensures
            r == last_binding(self.sortmap_view(), code),
    {
        prefix_get(self.sortmap.as_slice(), code)
    }

    /// Whether `key` starts a `g`-prefix command.
    pub fn is_g_prefix(&self, key: Key) -> (r: bool)
        ensures
            r == self.g_prefix_view().contains(key),
    {
        contains_key(self.g_prefix.as_slice(), key)
    }

    /// Whether `key` starts a sort-prefix command.
    pub fn is_sort_prefix(&self, key: Key) -> (r: bool)
        ensures
            r == self.sort_prefix_view().contains(key),
    {
        contains_key(self.sort_prefix.as_slice(), key)
    }

    /// The keys that start a sort-prefix command.
    pub fn sort_prefix(&self) -> (r: &[Key])
        ensures
            r@ == self.sort_prefix_view(),
    {
        self.sort_prefix.as_slice()
    }

    /// The keys that start a `g`-prefix command.
    pub fn g_prefix(&self) -> (r: &[Key])
        ensures
            r@ == self.g_prefix_view(),
    {
        self.g_prefix.as_slice()
    }

    /// The `g`-prefix table, in the order in which bindings were made.
    pub fn gmap(&self) -> (r: &[(KeyCode, PrefixCommand)])
        ensures
            r@ == self.gmap_view(),
    {
        self.gmap.as_slice()
    }

    /// The sort-prefix table, in the order in which bindings were made.
    pub fn sortmap(&self) -> (r: &[(KeyCode, PrefixCommand)])
        ensures
            r@ == self.sortmap_view(),
    {
        self.sortmap.as_slice()
    }
}

/// Which two-key command has been started.
#[derive(Clone, Copy, PartialEq, Eq, Structural, Debug)]
pub enum PrefixState {
    Idle,
    G,
    Sort,
}

/// Recognizes two-key commands: a prefix key, then within a timeout the key that completes it.
pub struct KeyPrefix {
    state: PrefixState,
    last_time: Option<Instant>,
    timeout: Duration,
    started: bool,
    exited: bool,
}

/// The command that a key starts when none is pending (`Idle` where it starts none).
pub open spec fn prefix_start(key: Key, sort_prefix: Seq<Key>, g_prefix: Seq<Key>) -> PrefixState {
    if g_prefix.contains(key) {
        PrefixState::G
    } else if sort_prefix.contains(key) {
        PrefixState::Sort
    } else {
        PrefixState::Idle
    }
}

impl KeyPrefix {
    /// The pending command.
    pub closed spec fn state_view(&self) -> PrefixState {
        self.state
    }

    /// Whether the last key started a command.
    pub closed spec fn started_view(&self) -> bool {
        self.started
    }

    /// Whether the last key ended (or the last call cancelled) a pending command.
    pub closed spec fn exited_view(&self) -> bool {
        self.exited
    }

    /// How long after its prefix key a command may be completed.
    pub closed spec fn timeout_view(&self) -> Duration {
        self.timeout
    }

    /// A time is recorded exactly while a command is pending.
    pub closed spec fn wf(&self) -> bool {
        (self.state == PrefixState::Idle) == (self.last_time is None)
    }

    /// A recognizer with nothing pending and the given timeout.
    pub fn new(timeout: Duration) -> (r: Self)
        ensures
            r.wf(),
            r.state_view() == PrefixState::Idle,
            !r.started_view(),
            !r.exited_view(),
            r.timeout_view() == timeout,
    {
        KeyPrefix { state: PrefixState::Idle, last_time: None, timeout, started: false, exited: false }
    }

    /// Feeds one key at time `now`, `in_time` telling whether the pending command's prefix came
    /// no longer than the timeout before. With nothing pending, a prefix key starts a command
    /// and nothing is returned; with a command pending, it ends, and if in time the command that
    /// the key's code completes is returned.
    pub fn feed_at(
        &mut self,
        key: &Key,
        gmap: &[(KeyCode, PrefixCommand)],
        sortmap: &[(KeyCode, PrefixCommand)],
        sort_prefix: &[Key],
        g_prefix: &[Key],
        now: Instant,
        in_time: bool,
    ) -> (r: Option<PrefixCommand>)
        requires
            old(self).wf(),
        ensures
            final(self).wf(),
            old(self).state_view() == PrefixState::Idle ==> {
                &&& r is None
                &&& final(self).state_view() == prefix_start(*key, sort_prefix@, g_prefix@)
                &&& final(self).started_view() == (final(self).state_view() != PrefixState::Idle)
                &&& !final(self).exited_view()
            },
            old(self).state_view() != PrefixState::Idle ==> {
                &&& final(self).state_view() == PrefixState::Idle
                &&& !final(self).started_view()
                &&& final(self).exited_view()
                &&& r == (if !in_time {
                    None
                } else if old(self).state_view() == PrefixState::G {
                    last_binding(gmap@, key.code)
                } else {
                    last_binding(sortmap@, key.code)
                })
            },
    {
        self.started = false;
        self.exited = false;
        match self.state {
            PrefixState::Idle => {
                if contains_key(g_prefix, *key) {
                    self.state = PrefixState::G;
                    self.last_time = Some(now);
                    self.started = true;
                } else if contains_key(sort_prefix, *key) {
                    self.state = PrefixState::Sort;
                    self.last_time = Some(now);
                    self.started = true;
                }
                None
            },
            PrefixState::G => {
                self.state = PrefixState::Idle;
                self.last_time = None;
                self.exited = true;
                if in_time {
                    prefix_get(gmap, key.code)
                } else {
                    None
                }
            },
            PrefixState::Sort => {
                self.state = PrefixState::Idle;
                self.last_time = None;
                self.exited = true;
                if in_time {
                    prefix_get(sortmap, key.code)
                } else {
                    None
                }
            },
        }
    }

    /// Feeds one key now (see `feed_at`): whether the key came in time is read from the clock.
    pub fn feed(
        &mut self,
        key: &Key,
        gmap: &[(KeyCode, PrefixCommand)],
        sortmap: &[(KeyCode, PrefixCommand)],
        sort_prefix: &[Key],
        g_prefix: &[Key],
    ) -> (r: Option<PrefixCommand>)
        requires
            old(self).wf(),
        ensures
            final(self).wf(),
            old(self).state_view() == PrefixState::Idle ==> {
                &&& r is None
                &&& final(self).state_view() == prefix_start(*key, sort_prefix@, g_prefix@)
                &&& final(self).started_view() == (final(self).state_view() != PrefixState::Idle)
                &&& !final(self).exited_view()
            },
            old(self).state_view() != PrefixState::Idle ==> {
                &&& final(self).state_view() == PrefixState::Idle
                &&& !final(self).started_view()
                &&& final(self).exited_view()
                &&& (r is None || r == (if old(self).state_view() == PrefixState::G {
                    last_binding(gmap@, key.code)
                } else {
                    last_binding(sortmap@, key.code)
                }))
            },
    {
        let now = instant_now();
        let in_time = match &self.last_time {
            Some(t) => duration_at_most(&instant_duration_since(&now, t), &self.timeout),
            None => false,
        };
        self.feed_at(key, gmap, sortmap, sort_prefix, g_prefix, now, in_time)
    }

    /// Whether the last key started a command.
    pub fn started_prefix(&self) -> (r: bool)
        ensures
            r == self.started_view(),
    {
        self.started
    }

    /// Whether the last key ended a pending command.
    pub fn exited_prefix(&self) -> (r: bool)
        ensures
            r == self.exited_view(),
    {
        self.exited
    }

    /// Whether a `g` command is pending.
    pub fn is_g_state(&self) -> (r: bool)
        ensures
            r == (self.state_view() == PrefixState::G),
    {
        self.state == PrefixState::G
    }

    /// Whether a sort command is pending.
    pub fn is_sort_state(&self) -> (r: bool)
        ensures
            r == (self.state_view() == PrefixState::Sort),
    {
        self.state == PrefixState::Sort
    }

    /// Whether a pending command has expired, `timed_out` telling whether its timeout has passed.
    pub fn expired_when(&self, timed_out: bool) -> (r: bool)
        ensures
            r == (self.state_view() != PrefixState::Idle && timed_out),
    {
        (self.state == PrefixState::G || self.state == PrefixState::Sort) && timed_out
    }

    /// Whether a pending command has outlived its timeout, by the clock.
    pub fn expired(&self) -> (r: bool)
        requires
            self.wf(),
        ensures
            r ==> self.state_view() != PrefixState::Idle,
    {
        let timed_out = match &self.last_time {
            Some(t) => duration_at_most(&self.timeout, &instant_duration_since(&instant_now(), t)),
            None => false,
        };
        self.expired_when(timed_out)
    }

    /// Abandons a pending command.
    pub fn cancel(&mut self)
        ensures
            final(self).wf(),
            final(self).state_view() == PrefixState::Idle,
            final(self).exited_view(),
            final(self).started_view() == old(self).started_view(),
    {
        self.state = PrefixState::Idle;
        self.last_time = None;
        self.exited = true;
    }
}

} // verus!
