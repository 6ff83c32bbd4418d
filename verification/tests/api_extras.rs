use runa::app::actions::{ActionContext, ActionMode, FindState, InputMode};
use runa::app::find_state::FindState as SearchState;
use runa::app::keymap::{Key, KeyCode, KeyModifiers, Keymap, PrefixCommand};
use runa::app::requests::RequestState;
use runa::config::display::{ShowInfoOptions, StatusSegment, StatusTag};
use runa::config::input::Keys;
use runa::engine::find::FindResult;
use runa::engine::formatter::{natural_cmp_ascii, natural_cmp_ascii_ci};
use runa::engine::sort::{SortConfig, SortMode, SortOrder};
use runa::utils::is_ascii_digit;
use std::cmp::Ordering;

#[test]
fn delete_at_cursor_removes_the_next_character() {
    let mut a = ActionContext::new();
    a.enter_mode(ActionMode::Input { mode: InputMode::Rename, prompt: "Rename: ".to_string() }, "abc".to_string());
    a.action_cursor_home();
    a.action_delete_at_cursor();
    assert_eq!(a.input_buffer(), "bc");
    assert_eq!(a.input_cursor_pos(), 0);
    a.action_cursor_end();
    a.action_delete_at_cursor();
    assert_eq!(a.input_buffer(), "bc");
}

#[test]
fn requests_wait_only_after_the_first() {
    let mut r: RequestState<u8> = RequestState::new();
    assert!(r.can_request_when(false));
    let id = r.prepare_new_request();
    r.set_pending(id, "/a".to_string());
    r.touch();
    assert!(!r.can_request_when(false));
    assert!(r.can_request_when(true));
}

#[test]
fn status_format_is_split_again() {
    let mut o = ShowInfoOptions::from_parts([true; 9], None, true, Some("{size} x".to_string()), None);
    o.init_status_format();
    assert_eq!(o.segments(), &[StatusSegment::Tag(StatusTag::Size), StatusSegment::Literal(" x".to_string())]);
    assert_eq!(o.date_format(), "%Y-%m-%d %H:%M");
}

#[test]
fn digits_and_natural_comparison() {
    assert!(is_ascii_digit('7'));
    assert!(!is_ascii_digit('x'));
    assert_eq!(natural_cmp_ascii("file2", "file10"), Ordering::Less);
    assert_eq!(natural_cmp_ascii("B", "a"), Ordering::Less);
    assert_eq!(natural_cmp_ascii_ci("B", "a"), Ordering::Greater);
    assert_eq!(natural_cmp_ascii_ci("File2", "file2"), Ordering::Equal);
    assert_ne!(natural_cmp_ascii("a01", "a1"), Ordering::Equal);
    assert_eq!(natural_cmp_ascii("a01", "a01"), Ordering::Equal);
}

#[test]
fn sort_prefix_keys_and_commands() {
    let km = Keymap::from_config(&Keys::default_keys());
    let o = Key { code: KeyCode::Char('o'), modifiers: KeyModifiers::none() };
    assert!(km.is_sort_prefix(o));
    assert!(!km.is_sort_prefix(Key { code: KeyCode::Char('z'), modifiers: KeyModifiers::none() }));
    assert_eq!(km.sort_command(KeyCode::Char('s')), Some(PrefixCommand::Sort(SortMode::Size)));
    assert_eq!(km.sort_command(KeyCode::Char('N')), Some(PrefixCommand::Sort(SortMode::Natural)));
    assert_eq!(km.sort_command(KeyCode::Char('z')), None);
}

#[test]
fn find_request_ids_and_selection() {
    let mut s = SearchState::default();
    let first = s.next_request_id();
    let second = s.next_request_id();
    assert_eq!(second, first + 1);
    let mut f = FindState::new();
    f.set_results(vec![
        FindResult::new("/a".to_string(), false, 3),
        FindResult::new("/b".to_string(), false, 2),
    ]);
    f.select_next();
    assert_eq!(f.selected(), 1);
    f.reset_selected();
    assert_eq!(f.selected(), 0);
}

#[test]
fn sort_key_and_direction_are_set() {
    let mut s = SortConfig::new();
    s.set_mode(SortMode::Modified);
    s.set_order(SortOrder::Descending);
    assert_eq!(s.mode(), SortMode::Modified);
    assert_eq!(s.order(), SortOrder::Descending);
}

#[test]
fn time_text_prefers_the_configured_format() {
    assert_eq!(runa::engine::metadata::choose_time_text(Some("Jan 1".to_string()), Some("2024-01-01 00:00".to_string())), "Jan 1");
    assert_eq!(runa::engine::metadata::choose_time_text(Some(String::new()), Some("2024-01-01 00:00".to_string())), "2024-01-01 00:00");
    assert_eq!(runa::engine::metadata::choose_time_text(None, Some("x".to_string())), "x");
    assert_eq!(runa::engine::metadata::choose_time_text(None, None), "");
    let epoch = std::time::UNIX_EPOCH;
    assert_ne!(runa::engine::metadata::format_file_time(Some(&epoch), "%Y"), "-");
    assert_eq!(runa::engine::metadata::format_file_time(None, "%Y"), "-");
}

#[test]
fn tabs_get_distinct_rising_ids() {
    let mut m = runa::app::tab::TabManager::new("a", "b");
    assert_eq!((m.tab_id(0), m.tab_id(1)), (0, 1));
    m.add_tab("c");
    assert_eq!(m.tab_id(2), 2);
    assert!(m.close_tab(0));
    m.add_tab("d");
    assert_eq!((m.tab_id(0), m.tab_id(1), m.tab_id(2)), (1, 2, 3));
    assert!(m.can_add());
}

#[test]
fn relative_paths_join_back() {
    let r = FindResult::new("/base/dir/file.txt".to_string(), false, 1);
    assert_eq!(r.relative("/base"), "dir/file.txt");
    assert_eq!(r.relative("/other"), "/base/dir/file.txt");
}
