use runa::engine::identity::{IdentityCache, name_or_id};
use runa::ui::overlays::{Overlay, OverlayKind, OverlayStack};
use runa::utils::{decimal_string, replace_all};

#[test]
fn overlay_stack_rules() {
    let mut s: OverlayStack<u8> = OverlayStack::new();
    s.push_message("one".to_string());
    s.push_message("two".to_string());
    assert_eq!(s.len(), 1);
    assert!(matches!(s.top(), Some(Overlay::Message { text }) if text == "two"));
    s.push(Overlay::ShowInfo { info: 3 });
    s.show_prefix_help();
    s.show_prefix_help();
    assert_eq!(s.len(), 3);
    s.hide_prefix_help();
    assert!(s.is_top(OverlayKind::ShowInfo));
    s.toggle_keybind_help();
    assert!(s.is_open(OverlayKind::KeybindHelp));
    assert!(s.close_keybind_help());
    assert!(!s.is_open(OverlayKind::KeybindHelp));
    assert!(!s.close_keybind_help());
    s.remove_kind(OverlayKind::Message);
    assert_eq!(s.len(), 1);
    assert_eq!(s.get(0).map(|o| o.kind()), Some(OverlayKind::ShowInfo));
}

#[test]
fn identity_names_are_remembered() {
    assert_eq!(name_or_id(None, 1234), "1234");
    assert_eq!(name_or_id(Some("root".to_string()), 0), "root");
    let mut c = IdentityCache::new();
    let first = c.resolve_user(0);
    let again = c.resolve_user(0);
    assert_eq!(first, again);
    let g = c.resolve_group(4_000_000_000);
    assert_eq!(g, "4000000000");
}

#[test]
fn decimal_and_replace() {
    assert_eq!(decimal_string(0), "0");
    assert_eq!(decimal_string(10), "10");
    assert_eq!(decimal_string(u64::MAX), u64::MAX.to_string());
    assert_eq!(replace_all("aXbXc", "X", "--"), "a--b--c");
    assert_eq!(replace_all("aaa", "aa", "b"), "ba");
    assert_eq!(replace_all("abc", "zz", "y"), "abc");
}
