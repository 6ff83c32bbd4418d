use runa::app::actions::{ActionContext, ActionMode, InputMode};
use runa::app::handlers::{delete_prompt, find_destination, overwrite_prompt, parent_target, rename_check, OverwriteKind, RenameCheck};
use runa::app::input::{InputKeyOutcome, handle_input_key};
use runa::app::keymap::{KeyCode, NavAction, TabAction};
use runa::app::nav::NavState;
use runa::app::parent::ParentState;
use runa::app::preview::{PreviewData, PreviewState};
use runa::app::requests::RequestState;
use runa::app::state::{
    ErrorTarget, InfoPlan, LoadTarget, NavOutcome, ParentPlan, PreviewPlan, accept_find_results, accept_metadata,
    apply_nav_action, check_move_sources, directory_load_target, error_target, plan_file_info, plan_parent_request,
    plan_preview,
};
use runa::app::tab::{AppContainer, TabManager, TabOutcome, TabPart, TabPartKind, handle_tab_action, tab_line};
use runa::config::theme::TabTheme;
use runa::app::timings::Throttler;
use runa::engine::find::FindResult;
use runa::engine::fm::FileEntry;
use runa::engine::metadata::FileMetadataCache;
use runa::engine::sort::SortConfig;

fn nav_with(dir: &str, names: &[(&str, u8)]) -> NavState {
    let mut nav = NavState::new(dir.to_string());
    let entries: Vec<FileEntry> = names.iter().map(|(n, f)| FileEntry::new(n.to_string(), *f, None)).collect();
    nav.update_from_worker(dir.to_string(), entries, None);
    nav
}

#[test]
fn input_keys_edit_the_prompt() {
    let mut a = ActionContext::new();
    assert_eq!(handle_input_key(&mut a, KeyCode::Char('x'), true), InputKeyOutcome::NotInput);
    a.enter_mode(ActionMode::Input { mode: InputMode::Rename, prompt: "Rename: ".to_string() }, "ab".to_string());
    assert_eq!(handle_input_key(&mut a, KeyCode::Left, true), InputKeyOutcome::Consumed);
    assert_eq!(handle_input_key(&mut a, KeyCode::Char('x'), true), InputKeyOutcome::Consumed);
    assert_eq!(a.input_buffer(), "axb");
    assert_eq!(handle_input_key(&mut a, KeyCode::Backspace, true), InputKeyOutcome::Consumed);
    assert_eq!(a.input_buffer(), "ab");
    assert_eq!(handle_input_key(&mut a, KeyCode::Up, true), InputKeyOutcome::Continue);
    assert_eq!(handle_input_key(&mut a, KeyCode::Tab, true), InputKeyOutcome::Continue);
    assert_eq!(handle_input_key(&mut a, KeyCode::Enter, true), InputKeyOutcome::Submit(InputMode::Rename));
    assert_eq!(handle_input_key(&mut a, KeyCode::Esc, true), InputKeyOutcome::Consumed);
    assert!(!a.is_input_mode());
}

#[test]
fn input_keys_in_filter_confirm_and_move() {
    let mut a = ActionContext::new();
    a.enter_mode(ActionMode::Input { mode: InputMode::Filter, prompt: "Filter: ".to_string() }, String::new());
    assert_eq!(handle_input_key(&mut a, KeyCode::Char('r'), false), InputKeyOutcome::ApplyFilter);
    assert_eq!(a.input_buffer(), "r");
    a.enter_mode(ActionMode::Input { mode: InputMode::ConfirmDelete, prompt: "Delete?".to_string() }, String::new());
    assert_eq!(handle_input_key(&mut a, KeyCode::Char('Y'), false), InputKeyOutcome::ConfirmDelete);
    assert!(!a.is_input_mode());
    a.enter_mode(ActionMode::Input { mode: InputMode::ConfirmDelete, prompt: "Delete?".to_string() }, String::new());
    assert_eq!(handle_input_key(&mut a, KeyCode::Char('n'), false), InputKeyOutcome::Consumed);
    assert!(!a.is_input_mode());
    a.enter_mode(ActionMode::Input { mode: InputMode::MoveFile, prompt: "Move to: ".to_string() }, String::new());
    assert_eq!(handle_input_key(&mut a, KeyCode::Tab, true), InputKeyOutcome::Autocomplete);
    assert_eq!(handle_input_key(&mut a, KeyCode::Tab, false), InputKeyOutcome::Continue);
    assert_eq!(handle_input_key(&mut a, KeyCode::F(1), false), InputKeyOutcome::Consumed);
}

#[test]
fn directory_answers_are_routed() {
    let mut nav = nav_with("/home/u", &[("docs", FileEntry::IS_DIR), ("a.txt", 0)]);
    let nav_id = nav.prepare_new_request();
    assert_eq!(directory_load_target("/home/u", nav_id, &nav, 7, 9), LoadTarget::Nav);
    assert_eq!(directory_load_target("/home/u/docs", 7, &nav, 7, 9), LoadTarget::Preview);
    assert_eq!(directory_load_target("/home/u/other", 7, &nav, 7, 9), LoadTarget::Stale);
    assert_eq!(directory_load_target("/home", 9, &nav, 7, 9), LoadTarget::Parent);
    assert_eq!(directory_load_target("/tmp", 9, &nav, 7, 9), LoadTarget::Stale);
    assert_eq!(directory_load_target("/home/u", nav_id + 100, &nav, 7, 9), LoadTarget::Stale);
    assert_eq!(error_target(Some(7), 7), ErrorTarget::Preview);
    assert_eq!(error_target(Some(8), 7), ErrorTarget::Message);
    assert_eq!(error_target(None, 7), ErrorTarget::Message);
}

#[test]
fn metadata_and_find_answers() {
    let nav = nav_with("/home/u", &[("a.txt", 0), ("b.txt", 0)]);
    let mut meta: RequestState<u32> = RequestState::new();
    let id = meta.prepare_new_request();
    meta.set_pending(id, "/home/u/a.txt".to_string());
    assert!(!accept_metadata(&mut meta, 1, "/home/u/a.txt", id + 1, &nav));
    assert!(accept_metadata(&mut meta, 5, "/home/u/a.txt", id, &nav));
    assert_eq!(meta.selected(), Some(&5));
    meta.set_pending(id, "/home/u/b.txt".to_string());
    assert!(!accept_metadata(&mut meta, 6, "/home/u/b.txt", id, &nav));
    assert_eq!(meta.selected(), Some(&5));
    assert!(!meta.matches_pending(id, "/home/u/b.txt"));

    let mut a = ActionContext::new();
    let rid = a.prepare_new_find_request();
    let results = vec![FindResult::new("/home/u/a.txt".to_string(), false, 10)];
    assert!(!accept_find_results(&mut a, "/elsewhere", results, rid, "/home/u"));
    let results = vec![FindResult::new("/home/u/a.txt".to_string(), false, 10)];
    assert!(accept_find_results(&mut a, "/home/u", results, rid, "/home/u"));
    assert_eq!(a.find_results().len(), 1);
}

#[test]
fn preview_plans() {
    let nav = nav_with("/home/u", &[("docs", FileEntry::IS_DIR), ("a.txt", 0)]);
    let mut p = PreviewState::new();
    let plan = plan_preview(&mut p, &nav, false, true);
    assert_eq!(plan, PreviewPlan::Directory { path: "/home/u/docs".to_string(), id: 1 });
    assert_eq!(plan_preview(&mut p, &nav, false, false), PreviewPlan::Skip);
    p.update_from_entries(vec![FileEntry::new("x".to_string(), 0, None)], 1);
    assert_eq!(plan_preview(&mut p, &nav, false, true), PreviewPlan::Skip);
    assert_eq!(plan_preview(&mut p, &nav, true, false), PreviewPlan::Directory { path: "/home/u/docs".to_string(), id: 2 });
    let empty = NavState::new("/e".to_string());
    assert_eq!(plan_preview(&mut p, &empty, false, true), PreviewPlan::Cleared);
    assert!(p.current_path().is_none());
}

#[test]
fn preview_state_updates() {
    let mut p = PreviewState::default();
    let id = p.prepare_new_request("/x".to_string());
    p.update_content(vec!["one".to_string(), "two".to_string()], id);
    match p.data() {
        PreviewData::File(t) => assert_eq!(t, "one\ntwo"),
        _ => panic!("expected file text"),
    }
    p.update_content(vec!["stale".to_string()], id + 1);
    assert!(matches!(p.data(), PreviewData::File(t) if t == "one\ntwo"));
    p.set_selected_idx(5);
    assert_eq!(p.selected_idx(), 0);
    p.update_from_entries(vec![FileEntry::new("a".to_string(), 0, None), FileEntry::new("b".to_string(), 0, None)], id);
    p.set_selected_idx(5);
    assert_eq!(p.selected_idx(), 1);
    p.mark_pending();
    assert!(p.should_trigger_when(true));
    assert!(!p.should_trigger_when(false));
    p.clear();
    assert!(p.data().is_empty());
}

#[test]
fn parent_state_selects_current_dir() {
    let mut parent = ParentState::new();
    let sort = SortConfig::default();
    let id = parent.prepare_new_request("/home", sort);
    let entries = vec![FileEntry::new("a".to_string(), 0, None), FileEntry::new("u".to_string(), FileEntry::IS_DIR, None)];
    parent.update_from_entries(entries, "u", id, "/home", sort, None);
    assert_eq!(parent.selected_idx(), Some(1));
    assert!(parent.is_cached("/home", sort));
    assert!(parent.try_share_directory("/home", sort).is_some());
    parent.update_from_entries(Vec::new(), "u", id - 1, "/home", sort, None);
    assert_eq!(parent.entries().len(), 2);
    parent.clear();
    assert!(!parent.is_cached("/home", sort));
    assert_eq!(parent.request_id(), id + 1);
}

#[test]
fn nav_actions_move_and_mark() {
    let mut nav = nav_with("/d", &[("a", 0), ("b", 0), ("c", 0)]);
    let mut actx = ActionContext::new();
    assert_eq!(apply_nav_action(&mut nav, &mut actx, NavAction::GoDown, false), NavOutcome::Moved);
    assert_eq!(nav.selected_idx(), 1);
    assert_eq!(apply_nav_action(&mut nav, &mut actx, NavAction::GoUp, false), NavOutcome::Moved);
    assert_eq!(apply_nav_action(&mut nav, &mut actx, NavAction::GoUp, false), NavOutcome::Moved);
    assert_eq!(nav.selected_idx(), 2);
    assert_eq!(apply_nav_action(&mut nav, &mut actx, NavAction::ToggleMarker, true), NavOutcome::Refreshed);
    assert_eq!(nav.selected_idx(), 0);
    assert!(nav.markers().contains("/d/c"));
    assert_eq!(apply_nav_action(&mut nav, &mut actx, NavAction::ClearMarker, true), NavOutcome::Refreshed);
    assert!(nav.markers().is_empty());
    assert_eq!(apply_nav_action(&mut nav, &mut actx, NavAction::GoParent, true), NavOutcome::NeedsFileSystem);
    assert_eq!(apply_nav_action(&mut nav, &mut actx, NavAction::ScrollUp, true), NavOutcome::Ignored);
    assert_eq!(apply_nav_action(&mut nav, &mut actx, NavAction::GoToBottom, true), NavOutcome::Moved);
    assert_eq!(nav.selected_idx(), 2);
    assert_eq!(apply_nav_action(&mut nav, &mut actx, NavAction::GoToTop, true), NavOutcome::Refreshed);
    assert_eq!(nav.selected_idx(), 0);
    assert_eq!(apply_nav_action(&mut nav, &mut actx, NavAction::SelectAll, true), NavOutcome::Refreshed);
    assert!(actx.clipboard().is_none());
    assert_eq!(nav.markers().len(), 3);
    assert!(nav.markers().contains("/d/a") && nav.markers().contains("/d/b") && nav.markers().contains("/d/c"));
    assert_eq!(apply_nav_action(&mut nav, &mut actx, NavAction::ClearAll, true), NavOutcome::Refreshed);
    assert!(nav.markers().is_empty());
    assert_eq!(nav.filter(), "");
    let mut empty = NavState::new("/e".to_string());
    assert_eq!(apply_nav_action(&mut empty, &mut actx, NavAction::GoDown, true), NavOutcome::Unchanged);
}

#[test]
fn move_into_itself_is_refused() {
    let sources = vec![Some("/a/b".to_string()), None, Some("/a".to_string())];
    assert_eq!(check_move_sources("/a/b/c", &sources), Some((0, false)));
    assert_eq!(check_move_sources("/a/b", &sources), Some((0, true)));
    assert_eq!(check_move_sources("/a/x", &sources), Some((2, false)));
    assert_eq!(check_move_sources("/z", &sources), None);
}

#[test]
fn tabs_open_switch_and_close() {
    let c = AppContainer::Single("first");
    let (c, out) = handle_tab_action(c, TabAction::Next, None);
    assert_eq!(out, TabOutcome::Consumed);
    let (c, out) = handle_tab_action(c, TabAction::New, Some("second"));
    assert_eq!(out, TabOutcome::Opened);
    let (c, out) = handle_tab_action(c, TabAction::New, Some("third"));
    assert_eq!(out, TabOutcome::Opened);
    let c = match c {
        AppContainer::Tabs(m) => {
            assert_eq!(m.len(), 3);
            assert_eq!(*m.current_tab(), "third");
            AppContainer::Tabs(m)
        },
        AppContainer::Single(_) => panic!("expected tabs"),
    };
    let (c, _) = handle_tab_action(c, TabAction::Next, None);
    let c = match c {
        AppContainer::Tabs(m) => {
            assert_eq!(*m.current_tab(), "first");
            AppContainer::Tabs(m)
        },
        AppContainer::Single(_) => panic!("expected tabs"),
    };
    let (c, _) = handle_tab_action(c, TabAction::Prev, None);
    let (c, _) = handle_tab_action(c, TabAction::Switch(2), None);
    let (c, _) = handle_tab_action(c, TabAction::Switch(0), None);
    let c = match c {
        AppContainer::Tabs(m) => {
            assert_eq!(*m.current_tab(), "second");
            AppContainer::Tabs(m)
        },
        AppContainer::Single(_) => panic!("expected tabs"),
    };
    let (c, out) = handle_tab_action(c, TabAction::Close, None);
    assert_eq!(out, TabOutcome::Consumed);
    let (c, out) = handle_tab_action(c, TabAction::Close, None);
    assert_eq!(out, TabOutcome::Consumed);
    match &c {
        AppContainer::Single(s) => assert_eq!(*s, "first"),
        AppContainer::Tabs(_) => panic!("expected a single state"),
    }
    let (_, out) = handle_tab_action(c, TabAction::Close, None);
    assert_eq!(out, TabOutcome::Quit);
}

#[test]
fn tab_manager_limits_and_ids() {
    let mut m = TabManager::new(0, 1);
    for i in 2..9 {
        assert_eq!(m.add_tab(i), i as usize);
    }
    assert_eq!(m.len(), 9);
    m.set_active(3);
    assert_eq!(m.add_tab(99), 3);
    assert_eq!(m.len(), 9);
    m.set_active(8);
    assert_eq!(m.current(), 8);
    assert!(m.close_tab(8));
    assert_eq!(m.current(), 7);
    assert!(m.close_tab(100));
}

#[test]
fn throttler_first_time_and_waits() {
    let mut t = Throttler::new();
    assert!(t.can_trigger(1_000_000));
    assert!(t.can_trigger_when(false));
    t.touch();
    assert!(!t.can_trigger_when(false));
    assert!(t.can_trigger_when(true));
    assert!(!t.can_trigger(1_000_000));
}

#[test]
fn request_parent_content_handles_root() {
    let mut parent = ParentState::new();
    let plan = plan_parent_request(&mut parent, "/", SortConfig::default(), None);
    assert_eq!(plan, ParentPlan::Cleared);
    assert!(parent.entries().is_empty());
}

#[test]
fn request_parent_content_uses_cache() {
    let mut parent = ParentState::new();
    let sort = SortConfig::default();
    let prev_request_id = parent.request_id();
    let entries = vec![FileEntry::new("test_file".to_string(), 0, None), FileEntry::new("test_dir".to_string(), 1, None)];
    parent.update_from_entries(entries, "irrelevant", prev_request_id, "/tmp/t", sort, None);
    let plan = plan_parent_request(&mut parent, "/tmp/t/subdir", sort, None);
    assert_eq!(plan, ParentPlan::AlreadyShown);
    assert_eq!(parent.request_id(), prev_request_id);
}

#[test]
fn parent_request_from_listing_at_hand_or_loaded() {
    let mut parent = ParentState::new();
    let sort = SortConfig::default();
    let plan = plan_parent_request(&mut parent, "/home/user/docs", sort, None);
    assert_eq!(plan, ParentPlan::Load { path: "/home/user".to_string(), id: 1 });
    let listing = vec![FileEntry::new("a".to_string(), 1, None), FileEntry::new("docs".to_string(), 1, None)];
    let plan = plan_parent_request(&mut parent, "/home/user/docs", sort, Some((listing, None)));
    assert_eq!(plan, ParentPlan::FromCache);
    assert_eq!(parent.selected_idx(), Some(1));
    assert_eq!(parent.last_path(), Some("/home/user"));
    assert_eq!(parent.request_id(), 2);
}

#[test]
fn file_info_requests_follow_the_selection() {
    let nav = nav_with("/d", &[("a.txt", 0), ("b.txt", 0)]);
    let mut meta: RequestState<FileMetadataCache> = RequestState::new();
    assert_eq!(plan_file_info(&mut meta, false, false, true, &nav), InfoPlan::Skip);
    assert_eq!(plan_file_info(&mut meta, true, false, false, &nav), InfoPlan::Skip);
    let plan = plan_file_info(&mut meta, true, false, true, &nav);
    let expected = InfoPlan::Request(format!("/d/{}", nav.selected_entry().unwrap().name()));
    assert_eq!(plan, expected);
    if let InfoPlan::Request(path) = plan {
        let id = meta.prepare_new_request();
        meta.set_pending(id, path);
    }
    assert_eq!(plan_file_info(&mut meta, false, true, true, &nav), InfoPlan::Skip);
    let empty = nav_with("/e", &[]);
    assert_eq!(plan_file_info(&mut meta, true, true, true, &empty), InfoPlan::Cleared);
    assert!(meta.selected().is_none());
}

#[test]
fn tab_line_labels_and_separators() {
    let mut theme = TabTheme::new();
    theme.marker = "*".to_string();
    theme.separator = "|".to_string();
    theme.line_format = Some("{idx}:{name}{marker}".to_string());
    let dirs = vec!["/home/u/docs".to_string(), "/".to_string()];
    let parts = tab_line(&dirs, 0, &theme);
    assert_eq!(parts.len(), 3);
    assert_eq!(parts[0], TabPart { text: "1:docs*".to_string(), kind: TabPartKind::Active });
    assert_eq!(parts[1], TabPart { text: "|".to_string(), kind: TabPartKind::Separator });
    assert_eq!(parts[2], TabPart { text: "2:/".to_string(), kind: TabPartKind::Inactive });
    assert!(tab_line(&dirs[..1], 0, &theme).is_empty());
    let plain = TabTheme::new();
    let parts = tab_line(&["/a".to_string(), "/b".to_string(), "/c".to_string()], 1, &plain);
    let texts: Vec<&str> = parts.iter().map(|p| p.text.as_str()).collect();
    assert_eq!(texts, vec!["[1]", "", "[2]", "", "[3]"]);
    assert_eq!(parts[2].kind, TabPartKind::Active);
}

#[test]
fn delete_prompts() {
    assert_eq!(delete_prompt(true, 0), None);
    assert_eq!(delete_prompt(true, 1), Some("Trash item? [Y/n]".to_string()));
    assert_eq!(delete_prompt(false, 1), Some("Delete item? [Y/n]".to_string()));
    assert_eq!(delete_prompt(false, 12), Some("Delete 12 items? [Y/n]".to_string()));
}

#[test]
fn find_results_and_going_up_lead_somewhere() {
    assert_eq!(find_destination("/a/b", true), Some(("/a/b".to_string(), None)));
    assert_eq!(find_destination("/a/b/c.txt", false), Some(("/a/b".to_string(), Some("c.txt".to_string()))));
    assert_eq!(find_destination("/", false), None);
    assert_eq!(parent_target("/a/b"), Some(("/a".to_string(), Some("b".to_string()))));
    assert_eq!(parent_target("/"), None);
}

#[test]
fn overwrite_prompts_and_rename_checks() {
    assert_eq!(overwrite_prompt(OverwriteKind::File, "/d/a.txt"), "Overwrite file 'a.txt' ? [Y/n]");
    assert_eq!(overwrite_prompt(OverwriteKind::Directory, "/d/sub"), "Overwrite directory 'sub' ? [Y/n]");
    assert_eq!(overwrite_prompt(OverwriteKind::Entry, "/d/b"), "Overwrite 'b' ? [Y/n]");
    assert_eq!(rename_check("/d/a", "/d/a", true), RenameCheck::Unchanged);
    assert_eq!(rename_check("/d/a", "/d/b", true), RenameCheck::Confirm);
    assert_eq!(rename_check("/d/a", "/d/A", true), RenameCheck::Proceed);
    assert_eq!(rename_check("/d/a", "/d/b", false), RenameCheck::Proceed);

    let mut a = ActionContext::new();
    a.enter_mode(ActionMode::Input { mode: InputMode::ConfirmOverwrite, prompt: "Overwrite?".to_string() }, String::new());
    assert_eq!(handle_input_key(&mut a, KeyCode::Char('y'), false), InputKeyOutcome::ConfirmOverwrite);
    assert!(!a.is_input_mode());
    a.enter_mode(ActionMode::Input { mode: InputMode::ConfirmOverwrite, prompt: "Overwrite?".to_string() }, String::new());
    assert_eq!(handle_input_key(&mut a, KeyCode::Char('n'), false), InputKeyOutcome::Consumed);
    assert!(!a.is_input_mode());
}

#[test]
fn rename_to_the_same_name_does_nothing() {
    let mut nav = nav_with("/d", &[("a", 0), ("b", 0)]);
    let mut a = ActionContext::new();
    a.enter_mode(ActionMode::Input { mode: InputMode::Rename, prompt: "Rename: ".to_string() }, "a".to_string());
    assert_eq!(a.rename_target(&nav), Some(("/d/a".to_string(), "/d/a".to_string())));
    let before = nav.request_id();
    assert!(a.action_rename(&mut nav).is_none());
    assert_eq!(nav.request_id(), before);
    assert!(!a.is_input_mode());
}

#[test]
fn set_path_clears_entries_and_selection() {
    let mut nav = nav_with("/d", &[("a", 0), ("b", 0)]);
    nav.move_down();
    let before = nav.request_id();
    nav.set_path("/e".to_string());
    assert_eq!(nav.current_dir(), "/e");
    assert!(nav.entries().is_empty());
    assert_eq!(nav.selected_idx(), 0);
    assert_eq!(nav.request_id(), before + 1);
    assert_eq!(nav.get_position("/d"), Some(1));
}
