//! The theme: the colors of every part of the screen, the built-in themes a name selects and
//! how a user's settings override them, the colors of files by name and extension, the syntax
//! theme handed to `bat`, and the labels of the tab line.

use crate::config::colors::{rgb, rgb_spec, Color, ColorPair, Palette, SymlinkTheme};
use crate::config::presets::{palette, palette_spec, preset_named, preset_spec};
use crate::utils::collections::TextMap;
use crate::utils::{contains_text, decimal_string, decimal_text, replace_all, replaced, text_contains, text_eq};
use vstd::prelude::*;

verus! {

/// The `bat` syntax theme that goes with a theme of the file manager.
pub open spec fn bat_theme_for(name: Seq<char>) -> Seq<char> {
    if name == "default"@ || name == "two-dark"@ {
        "TwoDark"@
    } else if name == "one-dark"@ {
        "OneHalfDark"@
    } else if name == "gruvbox-dark"@ || name == "gruvbox-dark-hard"@ || name == "gruvbox"@ {
        "gruvbox-dark"@
    } else if name == "gruvbox-light"@ {
        "gruvbox-light"@
    } else if name == "catppuccin-latte"@ {
        "Catppuccin Latte"@
    } else if name == "catppuccin-frappe"@ {
        "Catppuccin Frappe"@
    } else if name == "catppuccin-macchiato"@ {
        "Catppuccin Macchiato"@
    } else if name == "catppuccin-mocha"@ || name == "catppuccin"@ {
        "Catppuccin Mocha"@
    } else if name == "monokai"@ {
        "Monokai Extended (default)"@
    } else if name == "nord"@ {
        "Nord"@
    } else if name == "solarized-dark"@ {
        "Solarized (dark)"@
    } else if name == "solarized-light"@ {
        "Solarized (light)"@
    } else if name == "dracula"@ {
        "Dracula"@
    } else {
        "TwoDark"@
    }
}

/// The `bat` syntax theme that goes with a theme of the file manager; `TwoDark` for the
/// themes that have no counterpart.
pub fn map_to_bat_theme(internal_theme: &str) -> (r: &'static str)
    ensures
        r@ == bat_theme_for(internal_theme@),
{
    let t = internal_theme;
    if text_eq(t, "default") || text_eq(t, "two-dark") {
        "TwoDark"
    } else if text_eq(t, "one-dark") {
        "OneHalfDark"
    } else if text_eq(t, "gruvbox-dark") || text_eq(t, "gruvbox-dark-hard") || text_eq(t, "gruvbox") {
        "gruvbox-dark"
    } else if text_eq(t, "gruvbox-light") {
        "gruvbox-light"
    } else if text_eq(t, "catppuccin-latte") {
        "Catppuccin Latte"
    } else if text_eq(t, "catppuccin-frappe") {
        "Catppuccin Frappe"
    } else if text_eq(t, "catppuccin-macchiato") {
        "Catppuccin Macchiato"
    } else if text_eq(t, "catppuccin-mocha") || text_eq(t, "catppuccin") {
        "Catppuccin Mocha"
    } else if text_eq(t, "monokai") {
        "Monokai Extended (default)"
    } else if text_eq(t, "nord") {
        "Nord"
    } else if text_eq(t, "solarized-dark") {
        "Solarized (dark)"
    } else if text_eq(t, "solarized-light") {
        "Solarized (light)"
    } else if text_eq(t, "dracula") {
        "Dracula"
    } else {
        "TwoDark"
    }
}

/// The `bat` theme of a configured theme name, `TwoDark` when none is configured.
pub fn bat_theme_name(name: Option<&str>) -> (r: &'static str)
    ensures
        r@ == (match name {
            Some(n) => bat_theme_for(n@),
            None => "TwoDark"@,
        }),
{
    match name {
        Some(n) => map_to_bat_theme(n),
        None => "TwoDark",
    }
}

/// How tabs are labelled and colored in the tab line.
pub struct TabTheme {
    pub marker: String,
    pub separator: String,
    pub active: ColorPair,
    pub inactive: ColorPair,
    pub line_format: Option<String>,
}

/// The label format used when none is configured.
pub open spec fn default_tab_format() -> Seq<char> {
    "[{idx}{marker}]"@
}

/// The label of tab `idx` (counted from 0): the format with `{idx}` replaced by the tab's
/// number counted from 1, `{marker}` by the marker when the tab is the current one (else by
/// nothing), `{separator}` by the separator and `{name}` by the name (or nothing).
pub open spec fn tab_label(format: Seq<char>, number: nat, marker: Seq<char>, separator: Seq<char>, name: Seq<char>) -> Seq<char> {
    replaced(
        replaced(replaced(replaced(format, "{idx}"@, decimal_text(number)), "{marker}"@, marker), "{separator}"@, separator),
        "{name}"@,
        name,
    )
}

impl TabTheme {
    /// No marker, no separator, the default format, the active tab yellow and the others gray.
    pub fn new() -> (r: Self)
        ensures
            r.marker@.len() == 0,
            r.separator@.len() == 0,
            r.active == (ColorPair { fg: Color::Yellow, bg: Color::Reset }),
            r.inactive == (ColorPair { fg: Color::Gray, bg: Color::Reset }),
            r.line_format is None,
    {
        TabTheme {
            marker: String::new(),
            separator: String::new(),
            active: ColorPair { fg: Color::Yellow, bg: Color::Reset },
            inactive: ColorPair { fg: Color::Gray, bg: Color::Reset },
            line_format: None,
        }
    }

    /// The tab colors of a preset: `active` and `inactive`, the rest as by default.
    pub fn from_palette(active: Color, inactive: Color) -> (r: Self)
        ensures
            r.marker@.len() == 0,
            r.separator@.len() == 0,
            r.active == (ColorPair { fg: active, bg: Color::Reset }),
            r.inactive == (ColorPair { fg: inactive, bg: Color::Reset }),
            r.line_format is None,
    {
        TabTheme {
            marker: String::new(),
            separator: String::new(),
            active: ColorPair { fg: active, bg: Color::Reset },
            inactive: ColorPair { fg: inactive, bg: Color::Reset },
            line_format: None,
        }
    }

    /// The label of tab `idx` (see `tab_label`).
    pub fn format_tab(&self, idx: usize, is_current: bool, name: Option<&str>) -> (r: String)
        requires
            idx < usize::MAX,
        ensures
            r@ == tab_label(
                match &self.line_format {
                    Some(f) => f@,
                    None => default_tab_format(),
                },
                (idx + 1) as nat,
                if is_current { self.marker@ } else { Seq::empty() },
                self.separator@,
                match name {
                    Some(n) => n@,
                    None => Seq::empty(),
                },
            ),
    {
        proof {
            reveal_strlit("{idx}");
            reveal_strlit("{marker}");
            reveal_strlit("{separator}");
            reveal_strlit("{name}");
            reveal_strlit("");
            assert(""@ =~= Seq::<char>::empty());
        }
        let marker: &str = if is_current { self.marker.as_str() } else { "" };
        let format: &str = match &self.line_format {
            Some(f) => f.as_str(),
            None => "[{idx}{marker}]",
        };
        let number = decimal_string((idx + 1) as u64);
        let a = replace_all(format, "{idx}", number.as_str());
        let b = replace_all(a.as_str(), "{marker}", marker);
        let c = replace_all(b.as_str(), "{separator}", self.separator.as_str());
        let nm: &str = match name {
            Some(n) => n,
            None => "",
        };
        replace_all(c.as_str(), "{name}", nm)
    }

    /// Whether the label format shows tab names.
    pub fn uses_name(&self) -> (r: bool)
        ensures
            r == (match &self.line_format {
                Some(f) => contains_text(f@, "{name}"@),
                None => false,
            }),
    {
        match &self.line_format {
            Some(f) => text_contains(f.as_str(), "{name}"),
            None => false,
        }
    }
}

} // verus!

verus! {

/// The marker of marked entries: its icon and colors, and the colors of entries on the
/// clipboard.
pub struct MarkerTheme {
    pub icon: String,
    pub color: ColorPair,
    pub clipboard: Option<ColorPair>,
}

/// The marker's default colors.
pub open spec fn default_marker_color() -> ColorPair {
    ColorPair { fg: Color::Yellow, bg: Color::Reset }
}

/// The default colors of entries on the clipboard.
pub open spec fn default_clipboard_color() -> ColorPair {
    ColorPair { fg: Color::Green, bg: Color::Reset }
}

/// Whether a marker is the default one: a `*` in yellow, green on the clipboard.
pub open spec fn marker_default(m: MarkerTheme) -> bool {
    m.icon@ == "*"@ && m.color == default_marker_color() && m.clipboard == Some(default_clipboard_color())
}

impl MarkerTheme {
    /// The default marker.
    pub fn new() -> (r: Self)
        ensures
            marker_default(r),
    {
        MarkerTheme {
            icon: String::from_str("*"),
            color: ColorPair { fg: Color::Yellow, bg: Color::Reset },
            clipboard: Some(ColorPair { fg: Color::Green, bg: Color::Reset }),
        }
    }

    /// The marker's colors, the default's where they are `Reset`.
    pub fn style_or_theme(&self) -> (r: ColorPair)
        ensures
            r == crate::config::colors::resolved(self.color, default_marker_color()),
    {
        self.color.resolve(&ColorPair { fg: Color::Yellow, bg: Color::Reset })
    }

    /// The colors of entries on the clipboard: the configured ones (the default's where they
    /// are `Reset`), else the marker's.
    pub fn clipboard_style_or_theme(&self) -> (r: ColorPair)
        ensures
            r == (match self.clipboard {
                Some(c) => crate::config::colors::resolved(c, default_clipboard_color()),
                None => crate::config::colors::resolved(self.color, default_marker_color()),
            }),
    {
        match &self.clipboard {
            Some(c) => c.resolve(&ColorPair { fg: Color::Green, bg: Color::Reset }),
            None => self.style_or_theme(),
        }
    }

    fn is_default(&self) -> (r: bool)
        ensures
            r == marker_default(*self),
    {
        text_eq(self.icon.as_str(), "*") && self.color == (ColorPair { fg: Color::Yellow, bg: Color::Reset })
            && self.clipboard == Some(ColorPair { fg: Color::Green, bg: Color::Reset })
    }
}

/// The colors of dialogs: their body, border, title, labels and values.
#[derive(Debug, Clone, Copy, PartialEq, Eq, Structural)]
pub struct WidgetTheme {
    pub color: ColorPair,
    pub border: ColorPair,
    pub title: ColorPair,
    pub label: ColorPair,
    pub value: ColorPair,
}

/// The default colors of dialogs.
pub open spec fn default_widget() -> WidgetTheme {
    WidgetTheme {
        color: ColorPair { fg: Color::Reset, bg: Color::Reset },
        border: ColorPair { fg: Color::Reset, bg: Color::Reset },
        title: ColorPair { fg: Color::Magenta, bg: Color::Reset },
        label: ColorPair { fg: Color::Blue, bg: Color::Reset },
        value: ColorPair { fg: Color::Cyan, bg: Color::Reset },
    }
}

impl WidgetTheme {
    /// The default colors of dialogs.
    pub fn new() -> (r: Self)
        ensures
            r == default_widget(),
    {
        WidgetTheme {
            color: ColorPair { fg: Color::Reset, bg: Color::Reset },
            border: ColorPair { fg: Color::Reset, bg: Color::Reset },
            title: ColorPair { fg: Color::Magenta, bg: Color::Reset },
            label: ColorPair { fg: Color::Blue, bg: Color::Reset },
            value: ColorPair { fg: Color::Cyan, bg: Color::Reset },
        }
    }

    /// The dialog colors of a preset: titles in `primary`, labels in `secondary`, borders in
    /// `surface`, values in the terminal's colors.
    pub fn from_palette(primary: Color, secondary: Color, surface: Color) -> (r: Self)
        ensures
            r == (WidgetTheme {
                color: ColorPair { fg: Color::Reset, bg: Color::Reset },
                border: ColorPair { fg: surface, bg: Color::Reset },
                title: ColorPair { fg: primary, bg: Color::Reset },
                label: ColorPair { fg: secondary, bg: Color::Reset },
                value: ColorPair { fg: Color::Reset, bg: Color::Reset },
            }),
    {
        WidgetTheme {
            color: ColorPair { fg: Color::Reset, bg: Color::Reset },
            border: ColorPair { fg: surface, bg: Color::Reset },
            title: ColorPair { fg: primary, bg: Color::Reset },
            label: ColorPair { fg: secondary, bg: Color::Reset },
            value: ColorPair { fg: Color::Reset, bg: Color::Reset },
        }
    }
}

/// Whether a tab theme is the default one.
pub open spec fn tab_default(t: TabTheme) -> bool {
    &&& t.marker@.len() == 0
    &&& t.separator@.len() == 0
    &&& t.active == (ColorPair { fg: Color::Yellow, bg: Color::Reset })
    &&& t.inactive == (ColorPair { fg: Color::Gray, bg: Color::Reset })
    &&& t.line_format is None
}

fn is_default_tab(t: &TabTheme) -> (r: bool)
    ensures
        r == tab_default(*t),
{
    t.marker.as_str().is_empty() && t.separator.as_str().is_empty()
        && t.active == (ColorPair { fg: Color::Yellow, bg: Color::Reset })
        && t.inactive == (ColorPair { fg: Color::Gray, bg: Color::Reset }) && t.line_format.is_none()
}

/// The colors of the whole screen.
pub struct Theme {
    pub name: Option<String>,
    pub accent: ColorPair,
    pub selection: ColorPair,
    pub underline: ColorPair,
    pub entry: ColorPair,
    pub directory: ColorPair,
    pub separator: ColorPair,
    pub selection_icon: String,
    pub path: ColorPair,
    pub status_line: ColorPair,
    pub exe_color: Color,
    pub symlink: SymlinkTheme,
    pub marker: MarkerTheme,
    pub widget: WidgetTheme,
    pub tab: TabTheme,
    pub filename: TextMap<ColorPair>,
    pub ext: TextMap<ColorPair>,
}

/// The default accent: color 238.
pub open spec fn default_accent() -> ColorPair {
    ColorPair { fg: Color::Indexed(238), bg: Color::Reset }
}

/// The default selection: a background of color 236.
pub open spec fn default_selection() -> ColorPair {
    ColorPair { fg: Color::Reset, bg: Color::Indexed(236) }
}

/// The terminal's own colors.
pub open spec fn reset_pair() -> ColorPair {
    ColorPair { fg: Color::Reset, bg: Color::Reset }
}

/// The default directory color.
pub open spec fn default_directory() -> ColorPair {
    ColorPair { fg: Color::Blue, bg: Color::Reset }
}

/// The default separator: color 238.
pub open spec fn default_separator() -> ColorPair {
    ColorPair { fg: Color::Indexed(238), bg: Color::Reset }
}

/// The default color of the path.
pub open spec fn default_path() -> ColorPair {
    ColorPair { fg: Color::Magenta, bg: Color::Reset }
}

/// The default link colors.
pub open spec fn default_symlink() -> SymlinkTheme {
    SymlinkTheme { directory: Color::Cyan, file: Color::Indexed(150), target: Color::Magenta }
}

/// The colors a theme has when nothing is configured.
pub open spec fn is_builtin(t: Theme) -> bool {
    &&& t.name is None
    &&& t.accent == default_accent()
    &&& t.selection == default_selection()
    &&& t.underline == reset_pair()
    &&& t.entry == reset_pair()
    &&& t.directory == default_directory()
    &&& t.separator == default_separator()
    &&& t.selection_icon@.len() == 0
    &&& t.path == default_path()
    &&& t.status_line == reset_pair()
    &&& t.exe_color == Color::LightGreen
    &&& t.symlink == default_symlink()
    &&& marker_default(t.marker)
    &&& t.widget == default_widget()
    &&& tab_default(t.tab)
    &&& t.filename.wf() && t.filename@ == Map::<Seq<char>, ColorPair>::empty()
    &&& t.ext.wf() && t.ext@ == Map::<Seq<char>, ColorPair>::empty()
}

/// The colors of the built-in theme `name` made from `pal`, with `icon` as marker: the
/// surface color for accents, selection and separators, the overlay color for the path, the
/// base color behind the status line, the primary and secondary colors for the marker, links,
/// dialogs and tabs, and the rest as by default.
pub open spec fn is_made_theme(t: Theme, name: Seq<char>, pal: Palette, icon: Seq<char>) -> bool {
    let surface = rgb_spec(pal.surface);
    let primary = rgb_spec(pal.primary);
    let secondary = rgb_spec(pal.secondary);
    let muted = rgb_spec(pal.overlay);
    &&& t.name matches Some(n) && n@ == name
    &&& t.accent == (ColorPair { fg: surface, bg: Color::Reset })
    &&& t.selection == (ColorPair { fg: Color::Reset, bg: surface })
    &&& t.underline == reset_pair()
    &&& t.entry == reset_pair()
    &&& t.directory == (ColorPair { fg: rgb_spec(pal.directory), bg: Color::Reset })
    &&& t.separator == (ColorPair { fg: surface, bg: Color::Reset })
    &&& t.selection_icon@.len() == 0
    &&& t.path == (ColorPair { fg: muted, bg: Color::Reset })
    &&& t.status_line == (ColorPair { fg: Color::Reset, bg: rgb_spec(pal.base) })
    &&& t.exe_color == Color::LightGreen
    &&& t.symlink == (SymlinkTheme { directory: secondary, file: secondary, target: Color::Magenta })
    &&& t.marker.icon@ == icon
    &&& t.marker.color == (ColorPair { fg: primary, bg: Color::Reset })
    &&& t.marker.clipboard == Some(ColorPair { fg: secondary, bg: Color::Reset })
    &&& t.widget == (WidgetTheme {
        color: reset_pair(),
        border: ColorPair { fg: surface, bg: Color::Reset },
        title: ColorPair { fg: primary, bg: Color::Reset },
        label: ColorPair { fg: secondary, bg: Color::Reset },
        value: reset_pair(),
    })
    &&& t.tab.marker@.len() == 0 && t.tab.separator@.len() == 0 && t.tab.line_format is None
    &&& t.tab.active == (ColorPair { fg: primary, bg: Color::Reset })
    &&& t.tab.inactive == (ColorPair { fg: muted, bg: Color::Reset })
    &&& t.filename.wf() && t.filename@ == Map::<Seq<char>, ColorPair>::empty()
    &&& t.ext.wf() && t.ext@ == Map::<Seq<char>, ColorPair>::empty()
}

/// The theme `base` with the user's settings laid over it: every setting of `user` that differs
/// from the default replaces the base's, and the user's theme name, if given, is kept.
pub open spec fn overridden(base: Theme, user: Theme) -> Theme {
    Theme {
        name: if user.name is Some { user.name } else { base.name },
        accent: if user.accent != default_accent() { user.accent } else { base.accent },
        selection: if user.selection != default_selection() { user.selection } else { base.selection },
        underline: if user.underline != reset_pair() { user.underline } else { base.underline },
        entry: if user.entry != reset_pair() { user.entry } else { base.entry },
        directory: if user.directory != default_directory() { user.directory } else { base.directory },
        separator: if user.separator != default_separator() { user.separator } else { base.separator },
        selection_icon: if user.selection_icon@.len() != 0 { user.selection_icon } else { base.selection_icon },
        path: if user.path != default_path() { user.path } else { base.path },
        status_line: if user.status_line != reset_pair() { user.status_line } else { base.status_line },
        exe_color: base.exe_color,
        symlink: if user.symlink != default_symlink() { user.symlink } else { base.symlink },
        marker: if !marker_default(user.marker) { user.marker } else { base.marker },
        widget: if user.widget != default_widget() { user.widget } else { base.widget },
        tab: if !tab_default(user.tab) { user.tab } else { base.tab },
        filename: if user.filename@ != Map::<Seq<char>, ColorPair>::empty() { user.filename } else { base.filename },
        ext: if user.ext@ != Map::<Seq<char>, ColorPair>::empty() { user.ext } else { base.ext },
    }
}

/// Laying settings that change nothing over a theme gives the theme back.
pub proof fn lemma_default_settings_change_nothing(base: Theme, user: Theme)
    requires
        is_builtin(user),
    ensures
        overridden(base, user) == base,
{
}

/// A theme whose accent was changed but not its separator takes the accent for the separator.
pub open spec fn with_accent_separator(t: Theme) -> Theme {
    if t.accent != default_accent() && t.separator == default_separator() {
        Theme { separator: t.accent, ..t }
    } else {
        t
    }
}

/// The color of a file that a theme gives by default: Dockerfiles cyan; `Cargo.toml`,
/// `LICENSE` and `README.md` yellow; for files, archives red, images magenta and temporary
/// files gray-blue.
pub open spec fn default_style_spec(name: Seq<char>, ext: Option<Seq<char>>, is_dir: bool) -> Option<Color> {
    if name == "Dockerfile"@ {
        Some(Color::Cyan)
    } else if name == "Cargo.toml"@ || name == "LICENSE"@ || name == "README.md"@ {
        Some(Color::Yellow)
    } else if !is_dir && ext is Some {
        let e = ext->0;
        if e == "zip"@ || e == "tar"@ || e == "gz"@ || e == "7z"@ || e == "rar"@ {
            Some(Color::Red)
        } else if e == "jpg"@ || e == "jpeg"@ || e == "png"@ || e == "gif"@ || e == "svg"@ || e == "webm"@ {
            Some(Color::Magenta)
        } else if e == "tmp"@ {
            Some(Color::Rgb(108, 121, 135))
        } else {
            None
        }
    } else {
        None
    }
}

/// The color a theme gives a file by default (see `default_style_spec`).
pub fn default_style(name: &str, ext: Option<&str>, is_dir: bool) -> (r: Option<Color>)
    ensures
        r == default_style_spec(name@, match ext {
            Some(e) => Some(e@),
            None => None,
        }, is_dir),
{
    if text_eq(name, "Dockerfile") {
        return Some(Color::Cyan);
    }
    if text_eq(name, "Cargo.toml") || text_eq(name, "LICENSE") || text_eq(name, "README.md") {
        return Some(Color::Yellow);
    }
    if is_dir {
        return None;
    }
    match ext {
        Some(e) => {
            if text_eq(e, "zip") || text_eq(e, "tar") || text_eq(e, "gz") || text_eq(e, "7z") || text_eq(e, "rar") {
                Some(Color::Red)
            } else if text_eq(e, "jpg") || text_eq(e, "jpeg") || text_eq(e, "png") || text_eq(e, "gif")
                || text_eq(e, "svg") || text_eq(e, "webm") {
                Some(Color::Magenta)
            } else if text_eq(e, "tmp") {
                Some(Color::Rgb(108, 121, 135))
            } else {
                None
            }
        },
        None => None,
    }
}

impl Theme {
    /// Its color maps are well formed.
    pub open spec fn wf(&self) -> bool {
        self.filename.wf() && self.ext.wf()
    }

    /// The theme used when nothing is configured.
    pub fn builtin() -> (r: Self)
        ensures
            is_builtin(r),
    {
        Theme {
            name: None,
            accent: ColorPair { fg: Color::Indexed(238), bg: Color::Reset },
            selection: ColorPair { fg: Color::Reset, bg: Color::Indexed(236) },
            underline: ColorPair { fg: Color::Reset, bg: Color::Reset },
            entry: ColorPair { fg: Color::Reset, bg: Color::Reset },
            directory: ColorPair { fg: Color::Blue, bg: Color::Reset },
            separator: ColorPair { fg: Color::Indexed(238), bg: Color::Reset },
            selection_icon: String::new(),
            path: ColorPair { fg: Color::Magenta, bg: Color::Reset },
            status_line: ColorPair { fg: Color::Reset, bg: Color::Reset },
            exe_color: Color::LightGreen,
            symlink: SymlinkTheme::new(),
            marker: MarkerTheme::new(),
            widget: WidgetTheme::new(),
            tab: TabTheme::new(),
            filename: TextMap::new(),
            ext: TextMap::new(),
        }
    }

    /// The built-in theme `name` made from `pal` with `icon` as marker (see `is_made_theme`).
    pub fn make_theme(name: &str, pal: Palette, icon: &str) -> (r: Self)
        ensures
            is_made_theme(r, name@, pal, icon@),
    {
        let primary = rgb(pal.primary);
        let secondary = rgb(pal.secondary);
        let muted = rgb(pal.overlay);
        let surface = rgb(pal.surface);
        let base_bg = rgb(pal.base);
        let dir_color = rgb(pal.directory);
        Theme {
            name: Some(String::from_str(name)),
            accent: ColorPair { fg: surface, bg: Color::Reset },
            selection: ColorPair { fg: Color::Reset, bg: surface },
            underline: ColorPair { fg: Color::Reset, bg: Color::Reset },
            entry: ColorPair { fg: Color::Reset, bg: Color::Reset },
            directory: ColorPair { fg: dir_color, bg: Color::Reset },
            separator: ColorPair { fg: surface, bg: Color::Reset },
            selection_icon: String::new(),
            path: ColorPair { fg: muted, bg: Color::Reset },
            status_line: ColorPair { fg: Color::Reset, bg: base_bg },
            exe_color: Color::LightGreen,
            symlink: SymlinkTheme::from_palette(secondary, secondary),
            marker: MarkerTheme {
                icon: String::from_str(icon),
                color: ColorPair { fg: primary, bg: Color::Reset },
                clipboard: Some(ColorPair { fg: secondary, bg: Color::Reset }),
            },
            widget: WidgetTheme::from_palette(primary, secondary, surface),
            tab: TabTheme::from_palette(primary, muted),
            filename: TextMap::new(),
            ext: TextMap::new(),
        }
    }

    /// The built-in theme a name selects, if it selects one.
    pub fn get_preset_by_name(name: &str) -> (r: Option<Self>)
        ensures
            match preset_spec(name@) {
                Some((p, icon)) => r matches Some(t) && is_made_theme(t, name@, palette_spec(p), icon),
                None => r is None,
            },
    {
        match preset_named(name) {
            Some((p, icon)) => Some(Theme::make_theme(name, palette(p), icon)),
            None => None,
        }
    }

    /// Lays the user's settings over this theme (see `overridden`).
    #[verifier::spinoff_prover]
    #[verifier::rlimit(40)]
    pub fn apply_user_overrides(&mut self, user: Theme)
        ensures
            *final(self) == overridden(*old(self), user),
    {
        let ghost u = user;
        let Theme {
            name,
            accent,
            selection,
            underline,
            entry,
            directory,
            separator,
            selection_icon,
            path,
            status_line,
            exe_color: _,
            symlink,
            marker,
            widget,
            tab,
            filename,
            ext,
        } = user;
        if name.is_some() {
            self.name = name;
        }
        if accent != (ColorPair { fg: Color::Indexed(238), bg: Color::Reset }) {
            self.accent = accent;
        }
        if selection != (ColorPair { fg: Color::Reset, bg: Color::Indexed(236) }) {
            self.selection = selection;
        }
        if underline != (ColorPair { fg: Color::Reset, bg: Color::Reset }) {
            self.underline = underline;
        }
        if entry != (ColorPair { fg: Color::Reset, bg: Color::Reset }) {
            self.entry = entry;
        }
        if directory != (ColorPair { fg: Color::Blue, bg: Color::Reset }) {
            self.directory = directory;
        }
        if separator != (ColorPair { fg: Color::Indexed(238), bg: Color::Reset }) {
            self.separator = separator;
        }
        if !selection_icon.as_str().is_empty() {
            self.selection_icon = selection_icon;
        }
        if path != (ColorPair { fg: Color::Magenta, bg: Color::Reset }) {
            self.path = path;
        }
        if status_line != (ColorPair { fg: Color::Reset, bg: Color::Reset }) {
            self.status_line = status_line;
        }
        if symlink != (SymlinkTheme { directory: Color::Cyan, file: Color::Indexed(150), target: Color::Magenta }) {
            self.symlink = symlink;
        }
        if !marker.is_default() {
            self.marker = marker;
        }
        if widget != (WidgetTheme {
            color: ColorPair { fg: Color::Reset, bg: Color::Reset },
            border: ColorPair { fg: Color::Reset, bg: Color::Reset },
            title: ColorPair { fg: Color::Magenta, bg: Color::Reset },
            label: ColorPair { fg: Color::Blue, bg: Color::Reset },
            value: ColorPair { fg: Color::Cyan, bg: Color::Reset },
        }) {
            self.widget = widget;
        }
        if !is_default_tab(&tab) {
            self.tab = tab;
        }
        if !filename.is_empty() {
            self.filename = filename;
        }
        if !ext.is_empty() {
            self.ext = ext;
        }
        assert(*self == overridden(*old(self), u));
    }

    /// The theme to use from the user's settings: a changed accent with an unchanged separator
    /// makes the separator follow the accent; a theme name that selects a built-in theme lays
    /// the settings over it, otherwise the settings are used as they are.
    pub fn with_overrides(self) -> (r: Self)
        ensures
            match self.name {
                Some(n) => match preset_spec(n@) {
                    Some((p, icon)) => exists|base: Theme| is_made_theme(base, n@, palette_spec(p), icon)
                        && r == overridden(base, with_accent_separator(self)),
                    None => r == with_accent_separator(self),
                },
                None => r == with_accent_separator(self),
            },
    {
        let mut user = self;
        if user.accent != (ColorPair { fg: Color::Indexed(238), bg: Color::Reset })
            && user.separator == (ColorPair { fg: Color::Indexed(238), bg: Color::Reset }) {
            user.separator = user.accent;
        }
        assert(user == with_accent_separator(self));
        let base = match &user.name {
            Some(n) => Theme::get_preset_by_name(n.as_str()),
            None => None,
        };
        match base {
            Some(mut b) => {
                let ghost b0 = b;
                let ghost chosen = preset_spec(self.name->0@)->0;
                b.apply_user_overrides(user);
                assert(is_made_theme(b0, self.name->0@, palette_spec(chosen.0), chosen.1));
                b
            },
            None => user,
        }
    }

    /// The colors a file is drawn with where the theme sets them: by its name, then (for a
    /// file) by its extension, then by the defaults (see `default_style_spec`), in the
    /// terminal's background.
    pub fn entry_color_override(&self, name: &str, is_dir: bool, ext: Option<&str>) -> (r: Option<ColorPair>)
        requires
            self.wf(),
        ensures
            r == (if self.filename@.contains_key(name@) {
                Some(self.filename@[name@])
            } else if !is_dir && ext is Some && self.ext@.contains_key(ext->0@) {
                Some(self.ext@[ext->0@])
            } else {
                match default_style_spec(name@, match ext {
                    Some(e) => Some(e@),
                    None => None,
                }, is_dir) {
                    Some(c) => Some(ColorPair { fg: c, bg: Color::Reset }),
                    None => None,
                }
            }),
    {
        match self.filename.get(name) {
            Some(c) => return Some(*c),
            None => {},
        }
        if !is_dir {
            match ext {
                Some(e) => match self.ext.get(e) {
                    Some(c) => return Some(*c),
                    None => {},
                },
                None => {},
            }
        }
        match default_style(name, ext, is_dir) {
            Some(c) => Some(ColorPair { fg: c, bg: Color::Reset }),
            None => None,
        }
    }
}

} // verus!
