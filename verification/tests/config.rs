use runa::config::display::{
    BatStyle, DialogPosition, PreviewOptions, ShowInfoOptions, StatusSegment, StatusTag, adjusted_dialog_position,
    padding_str, parse_status_format, validate_strftime_format,
};
use runa::config::general::{General, InternalGeneral, clamp_find_results};
use runa::config::theme::{TabTheme, bat_theme_name, map_to_bat_theme};

#[test]
fn status_format_pieces() {
    assert_eq!(
        parse_status_format("{perms} | {size}"),
        vec![StatusSegment::Tag(StatusTag::Perms), StatusSegment::Literal(" | ".to_string()), StatusSegment::Tag(StatusTag::Size)]
    );
    assert_eq!(
        parse_status_format("a{bogus}b{modified}"),
        vec![
            StatusSegment::Literal("a".to_string()),
            StatusSegment::Literal("b".to_string()),
            StatusSegment::Tag(StatusTag::Mtime)
        ]
    );
    assert_eq!(parse_status_format("x{open"), vec![StatusSegment::Literal("x{open".to_string())]);
    assert_eq!(parse_status_format(""), Vec::<StatusSegment>::new());
}

#[test]
fn date_formats_are_checked() {
    assert_eq!(validate_strftime_format(None, "%Y", 64), "%Y");
    assert_eq!(validate_strftime_format(Some("%d.%m.%Y".to_string()), "%Y", 64), "%d.%m.%Y");
    assert_eq!(validate_strftime_format(Some("plain text".to_string()), "%Y", 64), "%Y");
    assert_eq!(validate_strftime_format(Some("%Q".to_string()), "%Y", 64), "%Y");
    assert_eq!(validate_strftime_format(Some(String::new()), "%Y", 64), "%Y");
    assert_eq!(validate_strftime_format(Some("%H:%M".to_string()), "%Y", 3), "%Y");
}

#[test]
fn info_options_from_parts() {
    let o = ShowInfoOptions::from_parts([true; 9], Some(DialogPosition::TopLeft), false, Some("{size}".to_string()), Some("%".to_string()));
    assert_eq!(o.date_format(), "%Y-%m-%d %H:%M");
    assert_eq!(o.segments(), &[StatusSegment::Tag(StatusTag::Size)]);
    assert_eq!(o.position(), Some(DialogPosition::TopLeft));
    let d = ShowInfoOptions::new();
    assert_eq!(d.segments().len(), 3);
    assert!(d.shows(0) && !d.shows(1));
}

#[test]
fn bat_arguments() {
    let mut o = PreviewOptions::new();
    assert_eq!(
        o.bat_args("TwoDark", 40),
        vec!["--color=always", "--paging=never", "--tabs=4", "--style=plain", "--theme", "TwoDark", "--wrap=never"]
    );
    o.wrap = true;
    o.style = BatStyle::Full;
    o.theme = Some("Nord".to_string());
    o.tab_width = 8;
    assert_eq!(
        o.bat_args("TwoDark", 40),
        vec![
            "--color=always",
            "--paging=never",
            "--tabs=8",
            "--style=full",
            "--theme",
            "Nord",
            "--terminal-width=40",
            "--wrap=character"
        ]
    );
}

#[test]
fn padding_and_dialogs() {
    assert_eq!(padding_str(0), "");
    assert_eq!(padding_str(2), "  ");
    assert_eq!(padding_str(200), "    ");
    assert_eq!(adjusted_dialog_position(DialogPosition::TopRight, true), DialogPosition::Custom(100, 3));
    assert_eq!(adjusted_dialog_position(DialogPosition::Custom(7, 0), true), DialogPosition::Custom(7, 3));
    assert_eq!(adjusted_dialog_position(DialogPosition::TopRight, false), DialogPosition::TopRight);
    assert_eq!(adjusted_dialog_position(DialogPosition::Center, true), DialogPosition::Center);
}

#[test]
fn find_results_are_clamped() {
    assert_eq!(clamp_find_results(3), 15);
    assert_eq!(clamp_find_results(500), 500);
    assert_eq!(clamp_find_results(usize::MAX), 1000000);
    let mut g = General::new();
    g.always_show = vec![".git".to_string(), ".git".to_string(), ".env".to_string()];
    g.max_find_results = 0;
    let ig = InternalGeneral::from_general(g);
    assert_eq!(ig.max_find_results(), 15);
    assert_eq!(ig.always_show().len(), 2);
    assert!(ig.always_show().contains(".env"));
    assert!(ig.move_to_trash());
}

#[test]
fn themes_and_tab_labels() {
    assert_eq!(map_to_bat_theme("gruvbox"), "gruvbox-dark");
    assert_eq!(map_to_bat_theme("catppuccin"), "Catppuccin Mocha");
    assert_eq!(map_to_bat_theme("unknown"), "TwoDark");
    assert_eq!(bat_theme_name(None), "TwoDark");
    assert_eq!(bat_theme_name(Some("nord")), "Nord");
    let mut t = TabTheme::new();
    assert_eq!(t.format_tab(0, true, None), "[1]");
    t.marker = "*".to_string();
    assert_eq!(t.format_tab(1, true, Some("src")), "[2*]");
    assert_eq!(t.format_tab(1, false, Some("src")), "[2]");
    assert!(!t.uses_name());
    t.line_format = Some("{idx}:{name}{marker}{separator}".to_string());
    t.separator = "|".to_string();
    assert!(t.uses_name());
    assert_eq!(t.format_tab(2, true, Some("docs")), "3:docs*|");
}
