use runa::app::keymap::{Key, KeyCode, KeyModifiers};
use runa::config::input::{InputKeys, Keys};
use runa::keymap::{Action, FileAction, Keymap, NavAction, SystemAction, plain_key};

#[test]
fn plain_key_names() {
    let none = KeyModifiers::none();
    assert_eq!(plain_key("Up"), Some(Key { code: KeyCode::Up, modifiers: none }));
    assert_eq!(plain_key("F5"), Some(Key { code: KeyCode::F(5), modifiers: none }));
    assert_eq!(plain_key("F+7"), Some(Key { code: KeyCode::F(7), modifiers: none }));
    assert_eq!(plain_key("F"), None);
    assert_eq!(plain_key("F300"), None);
    assert_eq!(plain_key("x"), Some(Key { code: KeyCode::Char('x'), modifiers: none }));
    assert_eq!(plain_key("up"), None);
}

#[test]
fn old_scheme_bindings() {
    let mut keys = Keys::default_keys();
    keys.set(InputKeys::GoUp, vec!["k".to_string(), "Up".to_string()]);
    let km = Keymap::from_config(&keys);
    let none = KeyModifiers::none();
    assert_eq!(km.lookup(Key { code: KeyCode::Up, modifiers: none }), Some(Action::Nav(NavAction::GoUp)));
    assert_eq!(km.lookup(Key { code: KeyCode::Char('k'), modifiers: none }), Some(Action::Nav(NavAction::GoUp)));
    assert_eq!(km.lookup(Key { code: KeyCode::Char('q'), modifiers: none }), Some(Action::System(SystemAction::Quit)));
    assert_eq!(km.lookup(Key { code: KeyCode::Char('y'), modifiers: none }), Some(Action::File(FileAction::Copy)));
    assert_eq!(Keymap::keycode_to_str(&KeyCode::F(12)), "F12");
    assert_eq!(Keymap::keycode_to_str(&KeyCode::Char('z')), "z");
    assert_eq!(Keymap::keycode_to_str(&KeyCode::PageUp), "PageUp");
}
