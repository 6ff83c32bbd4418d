//! Colors of the theme: a terminal color, a foreground and background pair with its
//! fallbacks, the colors of symbolic links, the palettes of the preset themes, and reading a
//! color from the configuration file.

use crate::keymap::{u8_text_value, u8_value_from};
use crate::utils::{ascii_lower, lower_spec, string_of, text_eq};
use vstd::prelude::*;

verus! {

/// A terminal color: the terminal's own (`Reset`), one of the sixteen named colors, a color
/// of the 256-color table, or an RGB color.
#[derive(Debug, Clone, Copy, PartialEq, Eq, Structural)]
pub enum Color {
    Reset,
    Black,
    Red,
    Green,
    Yellow,
    Blue,
    Magenta,
    Cyan,
    Gray,
    DarkGray,
    LightRed,
    LightGreen,
    LightYellow,
    LightBlue,
    LightMagenta,
    LightCyan,
    White,
    Rgb(u8, u8, u8),
    Indexed(u8),
}

/// A color, or `fallback` where it is `Reset`.
pub open spec fn or_spec(c: Color, fallback: Color) -> Color {
    if c == Color::Reset { fallback } else { c }
}

/// A color, or `fallback` where it is `Reset`.
pub fn color_or(c: Color, fallback: Color) -> (r: Color)
    ensures
        r == or_spec(c, fallback),
{
    if c == Color::Reset { fallback } else { c }
}

/// A foreground and a background color.
#[derive(Debug, Clone, Copy, PartialEq, Eq, Structural)]
pub struct ColorPair {
    pub fg: Color,
    pub bg: Color,
}

/// Each color of `p`, or the one of `other` where it is `Reset`.
pub open spec fn resolved(p: ColorPair, other: ColorPair) -> ColorPair {
    ColorPair { fg: or_spec(p.fg, other.fg), bg: or_spec(p.bg, other.bg) }
}

impl ColorPair {
    /// A pair of colors.
    pub fn new(fg: Color, bg: Color) -> (r: Self)
        ensures
            r == (ColorPair { fg, bg }),
    {
        ColorPair { fg, bg }
    }

    /// The terminal's own colors.
    pub fn reset() -> (r: Self)
        ensures
            r == (ColorPair { fg: Color::Reset, bg: Color::Reset }),
    {
        ColorPair { fg: Color::Reset, bg: Color::Reset }
    }

    /// Each color, or the one of `other` where it is `Reset` (see `resolved`).
    pub fn resolve(&self, other: &ColorPair) -> (r: Self)
        ensures
            r == resolved(*self, *other),
    {
        ColorPair { fg: color_or(self.fg, other.fg), bg: color_or(self.bg, other.bg) }
    }

    /// The colors to draw with: each color, or the fallback's where it is `Reset`.
    pub fn style_or(&self, fallback: &ColorPair) -> (r: Self)
        ensures
            r == resolved(*self, *fallback),
    {
        self.resolve(fallback)
    }
}

/// Resolving twice against the same fallback changes nothing more, and a color that is set is
/// never replaced by the fallback.
pub proof fn lemma_resolve_settles(p: ColorPair, fallback: ColorPair)
    ensures
        resolved(resolved(p, fallback), fallback) == resolved(p, fallback),
        p.fg != Color::Reset ==> resolved(p, fallback).fg == p.fg,
        p.bg != Color::Reset ==> resolved(p, fallback).bg == p.bg,
{
}

/// The colors of symbolic links: to a directory, to a file, and of the target shown.
#[derive(Debug, Clone, Copy, PartialEq, Eq, Structural)]
pub struct SymlinkTheme {
    pub directory: Color,
    pub file: Color,
    pub target: Color,
}

impl SymlinkTheme {
    /// The defaults: cyan, color 150 and magenta.
    pub fn new() -> (r: Self)
        ensures
            r == (SymlinkTheme { directory: Color::Cyan, file: Color::Indexed(150), target: Color::Magenta }),
    {
        SymlinkTheme { directory: Color::Cyan, file: Color::Indexed(150), target: Color::Magenta }
    }

    /// Each color, or the fallback's where it is `Reset`.
    pub fn with_fallback(&self, fallback: Self) -> (r: Self)
        ensures
            r == (SymlinkTheme {
                directory: or_spec(self.directory, fallback.directory),
                file: or_spec(self.file, fallback.file),
                target: or_spec(self.target, fallback.target),
            }),
    {
        SymlinkTheme {
            directory: color_or(self.directory, fallback.directory),
            file: color_or(self.file, fallback.file),
            target: color_or(self.target, fallback.target),
        }
    }

    /// The link colors of a preset: `dir` and `file`, targets in magenta.
    pub fn from_palette(dir: Color, file: Color) -> (r: Self)
        ensures
            r == (SymlinkTheme { directory: dir, file, target: Color::Magenta }),
    {
        SymlinkTheme { directory: dir, file, target: Color::Magenta }
    }
}

/// The colors a preset theme is made from.
#[derive(Debug, Clone, Copy)]
pub struct Palette {
    pub base: (u8, u8, u8),
    pub surface: (u8, u8, u8),
    pub overlay: (u8, u8, u8),
    pub primary: (u8, u8, u8),
    pub secondary: (u8, u8, u8),
    pub directory: (u8, u8, u8),
}

/// An RGB color.
pub open spec fn rgb_spec(c: (u8, u8, u8)) -> Color {
    Color::Rgb(c.0, c.1, c.2)
}

/// An RGB color.
pub fn rgb(c: (u8, u8, u8)) -> (r: Color)
    ensures
        r == rgb_spec(c),
{
    Color::Rgb(c.0, c.1, c.2)
}

/// A color name with ASCII letters lowercased and dashes, underscores and spaces dropped.
pub open spec fn normalized(s: Seq<char>) -> Seq<char>
    decreases s.len(),
{
    if s.len() == 0 {
        Seq::empty()
    } else if s.last() == '-' || s.last() == '_' || s.last() == ' ' {
        normalized(s.drop_last())
    } else {
        normalized(s.drop_last()).push(lower_spec(s.last()))
    }
}

/// The color a (normalized) name names.
pub open spec fn named_color(n: Seq<char>) -> Option<Color> {
    if n == "reset"@ {
        Some(Color::Reset)
    } else if n == "black"@ {
        Some(Color::Black)
    } else if n == "red"@ {
        Some(Color::Red)
    } else if n == "green"@ {
        Some(Color::Green)
    } else if n == "yellow"@ {
        Some(Color::Yellow)
    } else if n == "blue"@ {
        Some(Color::Blue)
    } else if n == "magenta"@ {
        Some(Color::Magenta)
    } else if n == "cyan"@ {
        Some(Color::Cyan)
    } else if n == "gray"@ || n == "grey"@ {
        Some(Color::Gray)
    } else if n == "darkgray"@ || n == "darkgrey"@ {
        Some(Color::DarkGray)
    } else if n == "lightred"@ {
        Some(Color::LightRed)
    } else if n == "lightgreen"@ {
        Some(Color::LightGreen)
    } else if n == "lightyellow"@ {
        Some(Color::LightYellow)
    } else if n == "lightblue"@ {
        Some(Color::LightBlue)
    } else if n == "lightmagenta"@ {
        Some(Color::LightMagenta)
    } else if n == "lightcyan"@ {
        Some(Color::LightCyan)
    } else if n == "white"@ {
        Some(Color::White)
    } else {
        None
    }
}

/// The value of a hexadecimal digit.
pub open spec fn hex_value(c: char) -> Option<int> {
    if '0' <= c <= '9' {
        Some(c as int - '0' as int)
    } else if 'a' <= c <= 'f' {
        Some(c as int - 'a' as int + 10)
    } else if 'A' <= c <= 'F' {
        Some(c as int - 'A' as int + 10)
    } else {
        None
    }
}

/// The byte that two hexadecimal digits spell.
pub open spec fn hex_byte(hi: char, lo: char) -> Option<u8> {
    match (hex_value(hi), hex_value(lo)) {
        (Some(h), Some(l)) => Some((h * 16 + l) as u8),
        _ => None,
    }
}

/// The color a text of the configuration file names: `#` and six hexadecimal digits for an
/// RGB color, a number up to 255 for a color of the 256-color table, else a color name (case,
/// dashes, underscores and spaces aside); `Reset` for anything else.
pub open spec fn parse_color_spec(s: Seq<char>) -> Color {
    if s.len() == 7 && s[0] == '#' {
        match (hex_byte(s[1], s[2]), hex_byte(s[3], s[4]), hex_byte(s[5], s[6])) {
            (Some(r), Some(g), Some(b)) => Color::Rgb(r, g, b),
            _ => Color::Reset,
        }
    } else {
        match u8_text_value(s) {
            Some(n) => Color::Indexed(n),
            None => match named_color(normalized(s)) {
                Some(c) => c,
                None => Color::Reset,
            },
        }
    }
}

fn hex_digit(c: char) -> (r: Option<u8>)
    ensures
        match hex_value(c) {
            Some(v) => r == Some(v as u8),
            None => r is None,
        },
{
    if '0' <= c && c <= '9' {
        Some((c as u32 - '0' as u32) as u8)
    } else if 'a' <= c && c <= 'f' {
        Some((c as u32 - 'a' as u32 + 10) as u8)
    } else if 'A' <= c && c <= 'F' {
        Some((c as u32 - 'A' as u32 + 10) as u8)
    } else {
        None
    }
}

fn hex_pair(hi: char, lo: char) -> (r: Option<u8>)
    ensures
        r == hex_byte(hi, lo),
{
    match (hex_digit(hi), hex_digit(lo)) {
        (Some(h), Some(l)) => Some(h * 16 + l),
        _ => None,
    }
}

fn color_named(n: &str) -> (r: Option<Color>)
    ensures
        r == named_color(n@),
{
    proof {
        reveal_strlit("reset");
    }
    if text_eq(n, "reset") {
        Some(Color::Reset)
    } else if text_eq(n, "black") {
        Some(Color::Black)
    } else if text_eq(n, "red") {
        Some(Color::Red)
    } else if text_eq(n, "green") {
        Some(Color::Green)
    } else if text_eq(n, "yellow") {
        Some(Color::Yellow)
    } else if text_eq(n, "blue") {
        Some(Color::Blue)
    } else if text_eq(n, "magenta") {
        Some(Color::Magenta)
    } else if text_eq(n, "cyan") {
        Some(Color::Cyan)
    } else if text_eq(n, "gray") || text_eq(n, "grey") {
        Some(Color::Gray)
    } else if text_eq(n, "darkgray") || text_eq(n, "darkgrey") {
        Some(Color::DarkGray)
    } else if text_eq(n, "lightred") {
        Some(Color::LightRed)
    } else if text_eq(n, "lightgreen") {
        Some(Color::LightGreen)
    } else if text_eq(n, "lightyellow") {
        Some(Color::LightYellow)
    } else if text_eq(n, "lightblue") {
        Some(Color::LightBlue)
    } else if text_eq(n, "lightmagenta") {
        Some(Color::LightMagenta)
    } else if text_eq(n, "lightcyan") {
        Some(Color::LightCyan)
    } else if text_eq(n, "white") {
        Some(Color::White)
    } else {
        None
    }
}

/// Reads a color of the configuration file (see `parse_color_spec`).
pub fn parse_color(s: &str) -> (r: Color)
    ensures
        r == parse_color_spec(s@),
{
    let n = s.unicode_len();
    if n == 7 && s.get_char(0) == '#' {
        let red = hex_pair(s.get_char(1), s.get_char(2));
        let green = hex_pair(s.get_char(3), s.get_char(4));
        let blue = hex_pair(s.get_char(5), s.get_char(6));
        return match (red, green, blue) {
            (Some(r), Some(g), Some(b)) => Color::Rgb(r, g, b),
            _ => Color::Reset,
        };
    }
    let mut cs: Vec<char> = Vec::new();
    let mut i: usize = 0;
    while i < n
        invariant
            n == s@.len(),
            i <= n,
            cs@ == s@.subrange(0, i as int),
        decreases n - i,
    {
        cs.push(s.get_char(i));
        i += 1;
    }
    assert(cs@.subrange(0, n as int) =~= s@);
    match u8_value_from(&cs, 0) {
        Some(v) => return Color::Indexed(v),
        None => {},
    }
    let mut norm: Vec<char> = Vec::new();
    let mut k: usize = 0;
    while k < n
        invariant
            n == s@.len(),
            k <= n,
            norm@ == normalized(s@.subrange(0, k as int)),
        decreases n - k,
    {
        let c = s.get_char(k);
        assert(s@.subrange(0, k as int + 1).drop_last() =~= s@.subrange(0, k as int));
        if !(c == '-' || c == '_' || c == ' ') {
            norm.push(ascii_lower(c));
        }
        k += 1;
    }
    assert(s@.subrange(0, n as int) =~= s@);
    let name = string_of(norm.as_slice());
    match color_named(name.as_str()) {
        Some(c) => c,
        None => Color::Reset,
    }
}

} // verus!
