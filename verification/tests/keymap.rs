use runa::app::keymap::{
    Action, FileAction, Key, KeyCode, KeyModifiers, KeyPrefix, Keymap, NavAction, PrefixCommand, PrefixState,
    SystemAction, TabAction, parse_key,
};
use runa::config::input::{InputKeys, Keys};
use runa::engine::sort::SortMode;
use std::time::Duration;

fn mods(shift: bool, control: bool, alt: bool) -> KeyModifiers {
    KeyModifiers { shift, control, alt, super_key: false, hyper: false, meta: false }
}

fn key(code: KeyCode, m: KeyModifiers) -> Key {
    Key { code, modifiers: m }
}

#[test]
fn parses_bracketed_and_plus_forms() {
    assert_eq!(parse_key("<c-f>"), Some(key(KeyCode::Char('f'), mods(false, true, false))));
    assert_eq!(parse_key("<m-d>"), Some(key(KeyCode::Char('d'), mods(false, false, true))));
    assert_eq!(parse_key("ctrl+shift+k"), Some(key(KeyCode::Char('K'), mods(true, true, false))));
    assert_eq!(parse_key("<space>"), Some(key(KeyCode::Char(' '), KeyModifiers::none())));
    assert_eq!(parse_key("pgdn"), Some(key(KeyCode::PageDown, KeyModifiers::none())));
    assert_eq!(parse_key("<f2>"), Some(key(KeyCode::F(2), KeyModifiers::none())));
    assert_eq!(parse_key("f255"), Some(key(KeyCode::F(255), KeyModifiers::none())));
    assert_eq!(parse_key("f256"), None);
    assert_eq!(parse_key("N"), Some(key(KeyCode::Char('N'), KeyModifiers::none())));
    assert_eq!(parse_key("<x-q>"), None);
    assert_eq!(parse_key("bogus"), None);
    assert_eq!(parse_key("ctrl"), None);
    assert_eq!(parse_key("Enter"), Some(key(KeyCode::Enter, KeyModifiers::none())));
}

#[test]
fn default_bindings_lookup() {
    let keys = Keys::default_keys();
    let km = Keymap::from_config(&keys);
    assert_eq!(km.lookup(key(KeyCode::Char('j'), KeyModifiers::none())), Some(Action::Nav(NavAction::GoDown)));
    assert_eq!(km.lookup(key(KeyCode::Down, KeyModifiers::none())), Some(Action::Nav(NavAction::GoDown)));
    assert_eq!(km.lookup(key(KeyCode::Char('q'), KeyModifiers::none())), Some(Action::System(SystemAction::Quit)));
    assert_eq!(km.lookup(key(KeyCode::Char('d'), mods(false, false, true))), Some(Action::File(FileAction::AlternateDelete)));
    assert_eq!(km.lookup(key(KeyCode::Char('N'), KeyModifiers::none())), Some(Action::File(FileAction::CreateDirectory)));
    // a shifted character falls back to its binding without shift
    assert_eq!(km.lookup(key(KeyCode::Char('j'), mods(true, false, false))), Some(Action::Nav(NavAction::GoDown)));
    // unmodified digits switch tabs
    assert_eq!(km.lookup(key(KeyCode::Char('3'), KeyModifiers::none())), Some(Action::Tab(TabAction::Switch(3))));
    assert_eq!(km.lookup(key(KeyCode::Null, KeyModifiers::none())), None);
}

#[test]
fn later_bindings_win() {
    let mut keys = Keys::default_keys();
    keys.set(InputKeys::Quit, vec!["j".to_string()]);
    let km = Keymap::from_config(&keys);
    assert_eq!(km.lookup(key(KeyCode::Char('j'), KeyModifiers::none())), Some(Action::System(SystemAction::Quit)));
}

#[test]
fn prefix_commands() {
    let keys = Keys::default_keys();
    let km = Keymap::from_config(&keys);
    let g = key(KeyCode::Char('g'), KeyModifiers::none());
    assert!(km.is_g_prefix(g));
    assert_eq!(km.g_command(KeyCode::Char('g')), Some(PrefixCommand::Nav(NavAction::GoToTop)));
    let mut p = KeyPrefix::new(Duration::from_secs(60));
    let none = p.feed_at(&g, km.gmap(), km.sortmap(), km.sort_prefix(), km.g_prefix(), std::time::Instant::now(), true);
    assert_eq!(none, None);
    assert!(p.started_prefix());
    assert!(p.is_g_state());
    let done = p.feed(&g, km.gmap(), km.sortmap(), km.sort_prefix(), km.g_prefix());
    assert_eq!(done, Some(PrefixCommand::Nav(NavAction::GoToTop)));
    assert!(p.exited_prefix());
    assert!(!p.is_g_state());
    // too late: nothing is completed
    p.feed_at(&g, km.gmap(), km.sortmap(), km.sort_prefix(), km.g_prefix(), std::time::Instant::now(), true);
    let late = p.feed_at(&g, km.gmap(), km.sortmap(), km.sort_prefix(), km.g_prefix(), std::time::Instant::now(), false);
    assert_eq!(late, None);
    assert!(p.expired_when(true) == false);
    let s = km.sort_prefix()[0];
    p.feed(&s, km.gmap(), km.sortmap(), km.sort_prefix(), km.g_prefix());
    assert!(p.is_sort_state());
    assert!(p.expired_when(true));
    p.cancel();
    assert!(!p.is_sort_state());
    let _ = PrefixState::Idle;
    let _ = SortMode::Name;
}
