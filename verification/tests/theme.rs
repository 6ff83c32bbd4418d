use runa::config::colors::{color_or, parse_color, rgb, Color, ColorPair, SymlinkTheme};
use runa::config::presets::{palette, preset_named, Preset};
use runa::config::theme::{default_style, MarkerTheme, TabTheme, Theme, WidgetTheme};

#[test]
fn parse_color_hex_index_and_names() {
    assert_eq!(parse_color("#ff0080"), Color::Rgb(255, 0, 128));
    assert_eq!(parse_color("#FFa0B1"), Color::Rgb(255, 160, 177));
    assert_eq!(parse_color("#ff00"), Color::Reset);
    assert_eq!(parse_color("#gg0000"), Color::Reset);
    assert_eq!(parse_color("12"), Color::Indexed(12));
    assert_eq!(parse_color("255"), Color::Indexed(255));
    assert_eq!(parse_color("Light-Red"), Color::LightRed);
    assert_eq!(parse_color("dark_grey"), Color::DarkGray);
    assert_eq!(parse_color("light cyan"), Color::LightCyan);
    assert_eq!(parse_color("BLUE"), Color::Blue);
    assert_eq!(parse_color("grey"), Color::Gray);
    assert_eq!(parse_color("not-a-color"), Color::Reset);
    assert_eq!(parse_color(""), Color::Reset);
}

#[test]
fn color_pairs_resolve_against_fallbacks() {
    assert_eq!(color_or(Color::Reset, Color::Red), Color::Red);
    assert_eq!(color_or(Color::Blue, Color::Red), Color::Blue);
    let p = ColorPair::new(Color::Reset, Color::Black);
    let fallback = ColorPair::new(Color::Yellow, Color::White);
    assert_eq!(p.resolve(&fallback), ColorPair::new(Color::Yellow, Color::Black));
    assert_eq!(p.resolve(&fallback).resolve(&fallback), p.resolve(&fallback));
    assert_eq!(ColorPair::reset().style_or(&fallback), fallback);
    let links = SymlinkTheme { directory: Color::Reset, file: Color::Red, target: Color::Reset };
    let resolved = links.with_fallback(SymlinkTheme::new());
    assert_eq!(resolved, SymlinkTheme { directory: Color::Cyan, file: Color::Red, target: Color::Magenta });
    assert_eq!(rgb((1, 2, 3)), Color::Rgb(1, 2, 3));
}

#[test]
fn marker_colors_fall_back_to_defaults() {
    let mut m = MarkerTheme::new();
    assert_eq!(m.style_or_theme(), ColorPair::new(Color::Yellow, Color::Reset));
    assert_eq!(m.clipboard_style_or_theme(), ColorPair::new(Color::Green, Color::Reset));
    m.color = ColorPair::new(Color::Red, Color::Reset);
    m.clipboard = None;
    assert_eq!(m.clipboard_style_or_theme(), ColorPair::new(Color::Red, Color::Reset));
    m.clipboard = Some(ColorPair::new(Color::Reset, Color::Blue));
    assert_eq!(m.clipboard_style_or_theme(), ColorPair::new(Color::Green, Color::Blue));
}

#[test]
fn presets_by_name() {
    let (p, icon) = preset_named("nord").unwrap();
    assert_eq!(p, Preset::Nord);
    assert_eq!(icon, "*");
    assert_eq!(preset_named("rose_pine").map(|x| x.0), Some(Preset::RosePine));
    assert_eq!(preset_named("catppuccin-macchiato").map(|x| x.1), Some("┃"));
    assert!(preset_named("Nord").is_none());
    let pal = palette(Preset::Nord);
    assert_eq!(pal.surface, (67, 76, 94));

    let t = Theme::get_preset_by_name("nord").unwrap();
    assert_eq!(t.name.as_deref(), Some("nord"));
    assert_eq!(t.accent, ColorPair::new(Color::Rgb(67, 76, 94), Color::Reset));
    assert_eq!(t.selection, ColorPair::new(Color::Reset, Color::Rgb(67, 76, 94)));
    assert_eq!(t.directory, ColorPair::new(Color::Rgb(129, 161, 193), Color::Reset));
    assert_eq!(t.status_line, ColorPair::new(Color::Reset, Color::Rgb(46, 52, 64)));
    assert_eq!(t.path, ColorPair::new(Color::Rgb(94, 129, 172), Color::Reset));
    assert_eq!(t.marker.icon, "*");
    assert_eq!(t.marker.color, ColorPair::new(Color::Rgb(163, 190, 140), Color::Reset));
    assert_eq!(t.tab.active, ColorPair::new(Color::Rgb(163, 190, 140), Color::Reset));
    assert_eq!(t.tab.inactive, ColorPair::new(Color::Rgb(94, 129, 172), Color::Reset));
    assert_eq!(t.widget.title, ColorPair::new(Color::Rgb(163, 190, 140), Color::Reset));
    assert!(Theme::get_preset_by_name("no-such-theme").is_none());
}

#[test]
fn builtin_theme_defaults() {
    let t = Theme::builtin();
    assert!(t.name.is_none());
    assert_eq!(t.accent, ColorPair::new(Color::Indexed(238), Color::Reset));
    assert_eq!(t.selection, ColorPair::new(Color::Reset, Color::Indexed(236)));
    assert_eq!(t.directory, ColorPair::new(Color::Blue, Color::Reset));
    assert_eq!(t.exe_color, Color::LightGreen);
    assert_eq!(t.widget, WidgetTheme::new());
    assert_eq!(t.tab.active, TabTheme::new().active);
}

#[test]
fn user_settings_lay_over_a_preset() {
    let mut base = Theme::get_preset_by_name("dracula").unwrap();
    let base_path = base.path;
    let mut user = Theme::builtin();
    user.directory = ColorPair::new(Color::Red, Color::Reset);
    user.selection_icon = ">".to_string();
    base.apply_user_overrides(user);
    assert_eq!(base.directory, ColorPair::new(Color::Red, Color::Reset));
    assert_eq!(base.selection_icon, ">");
    assert_eq!(base.path, base_path);
    assert_eq!(base.name.as_deref(), Some("dracula"));
    assert_eq!(base.marker.icon, "┃");
}

#[test]
fn accent_carries_to_separator() {
    let mut user = Theme::builtin();
    user.accent = ColorPair::new(Color::Green, Color::Reset);
    let t = user.with_overrides();
    assert_eq!(t.separator, ColorPair::new(Color::Green, Color::Reset));

    let mut user = Theme::builtin();
    user.name = Some("nord".to_string());
    user.entry = ColorPair::new(Color::White, Color::Reset);
    let t = user.with_overrides();
    assert_eq!(t.entry, ColorPair::new(Color::White, Color::Reset));
    assert_eq!(t.accent, ColorPair::new(Color::Rgb(67, 76, 94), Color::Reset));

    let mut user = Theme::builtin();
    user.name = Some("mine".to_string());
    let t = user.with_overrides();
    assert_eq!(t.name.as_deref(), Some("mine"));
    assert_eq!(t.accent, ColorPair::new(Color::Indexed(238), Color::Reset));
}

#[test]
fn entry_colors_by_name_extension_and_default() {
    assert_eq!(default_style("Dockerfile", None, false), Some(Color::Cyan));
    assert_eq!(default_style("README.md", Some("md"), false), Some(Color::Yellow));
    assert_eq!(default_style("a.zip", Some("zip"), false), Some(Color::Red));
    assert_eq!(default_style("pics.png", Some("png"), true), None);
    assert_eq!(default_style("x.tmp", Some("tmp"), false), Some(Color::Rgb(108, 121, 135)));
    assert_eq!(default_style("main.rs", Some("rs"), false), None);

    let mut t = Theme::builtin();
    t.filename.insert("Makefile".to_string(), ColorPair::new(Color::Green, Color::Reset));
    t.ext.insert("rs".to_string(), ColorPair::new(Color::LightRed, Color::Reset));
    assert_eq!(t.entry_color_override("Makefile", false, None), Some(ColorPair::new(Color::Green, Color::Reset)));
    assert_eq!(t.entry_color_override("main.rs", false, Some("rs")), Some(ColorPair::new(Color::LightRed, Color::Reset)));
    assert_eq!(t.entry_color_override("src.rs", true, Some("rs")), None);
    assert_eq!(t.entry_color_override("a.gz", false, Some("gz")), Some(ColorPair::new(Color::Red, Color::Reset)));
    assert_eq!(t.entry_color_override("notes.txt", false, Some("txt")), None);
}

#[test]
fn default_settings_leave_a_preset_unchanged() {
    let mut t = Theme::get_preset_by_name("gruvbox-dark").unwrap();
    let (accent, status, marker) = (t.accent, t.status_line, t.marker.color);
    t.apply_user_overrides(Theme::builtin());
    assert_eq!(t.accent, accent);
    assert_eq!(t.status_line, status);
    assert_eq!(t.marker.color, marker);
    assert_eq!(t.name.as_deref(), Some("gruvbox-dark"));
    assert_eq!(t.tab.active, ColorPair::new(Color::Rgb(211, 134, 155), Color::Reset));
}
