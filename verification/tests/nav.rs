use runa::app::nav::NavState;
use runa::engine::fm::FileEntry;
use runa::utils::collections::TextSet;

fn files(names: &[&str]) -> Vec<FileEntry> {
    names.iter().map(|n| FileEntry::new(n.to_string(), 0, None)).collect()
}

fn dup(entries: &[FileEntry]) -> Vec<FileEntry> {
    entries.iter().map(|e| e.duplicate()).collect()
}

fn position_of(nav: &NavState, name: &str) -> Option<usize> {
    nav.shown_indices().iter().position(|&i| nav.entries()[i].name_str() == name)
}

#[test]
fn test_navstate_rapid_navigation() {
    let file_count = 10;
    let names: Vec<String> = (0..file_count).map(|i| format!("testfile_{i}.txt")).collect();
    let entries: Vec<FileEntry> = names.iter().map(|n| FileEntry::new(n.clone(), 0, None)).collect();
    let mut nav = NavState::new("/work".to_string());
    nav.update_from_worker("/work".to_string(), dup(&entries), None);
    assert_eq!(nav.entries().len(), file_count, "initial entry count mismatch");
    let down_presses = 1000;
    for _ in 0..down_presses {
        assert!(nav.move_down(), "nav.move_down() failed during stress");
    }
    let expected_idx = down_presses % file_count;
    assert_eq!(nav.selected_idx(), expected_idx, "wrong index after DOWN stress");
    let selected = nav.selected_entry().expect("no entry selected after DOWN");
    assert_eq!(selected.name_str(), entries[expected_idx].name_str());
    let up_presses = 1000;
    for _ in 0..up_presses {
        assert!(nav.move_up(), "nav.move_up() failed during stress");
    }
    let expected_idx_up = (expected_idx + file_count - (up_presses % file_count)) % file_count;
    assert_eq!(nav.selected_idx(), expected_idx_up, "wrong index after UP stress");
    let selected_up = nav.selected_entry().expect("no entry selected after UP");
    assert_eq!(selected_up.name_str(), entries[expected_idx_up].name_str());
    for (i, entry) in nav.entries().iter().enumerate() {
        assert_eq!(entry.name_str(), entries[i].name_str(), "data corruption at index {i}");
    }
}

#[test]
fn test_navstate_navigation() {
    let base = "/base";
    let sub = "/base/subdir";
    let subsub = "/base/subdir/subsub";
    let base_entries = vec![FileEntry::new("subdir".to_string(), FileEntry::IS_DIR, None), FileEntry::new("file_base.txt".to_string(), 0, None)];
    let sub_entries = vec![FileEntry::new("subsub".to_string(), FileEntry::IS_DIR, None), FileEntry::new("file_sub.txt".to_string(), 0, None)];
    let subsub_entries = files(&["file_subsub.txt"]);
    let mut nav = NavState::new(base.to_string());
    for i in 0..500 {
        nav.set_path(sub.to_string());
        nav.update_from_worker(sub.to_string(), dup(&sub_entries), None);
        assert_eq!(nav.current_dir(), sub);
        assert!(nav.entries().iter().any(|e| e.name() == "subsub"), "Iter {i} missing subsub");
        nav.set_path(subsub.to_string());
        nav.update_from_worker(subsub.to_string(), dup(&subsub_entries), None);
        assert_eq!(nav.current_dir(), subsub);
        assert!(nav.entries().iter().any(|e| e.name() == "file_subsub.txt"));
        nav.set_path(sub.to_string());
        nav.update_from_worker(sub.to_string(), dup(&sub_entries), None);
        assert_eq!(nav.current_dir(), sub);
        nav.set_path(base.to_string());
        nav.update_from_worker(base.to_string(), dup(&base_entries), None);
        assert_eq!(nav.current_dir(), base);
        assert!(nav.entries().iter().any(|e| e.name() == "subdir"));
    }
}

#[test]
fn test_navstate_selection_persistence() {
    let base = "/base";
    let sub = "/base/subdir";
    let base_entries = vec![FileEntry::new("subdir".to_string(), FileEntry::IS_DIR, None), FileEntry::new("other".to_string(), 0, None)];
    let names: Vec<String> = (0..20).map(|i| format!("file_{}.txt", i)).collect();
    let sub_entries: Vec<FileEntry> = names.iter().map(|n| FileEntry::new(n.clone(), 0, None)).collect();
    let mut nav = NavState::new(base.to_string());
    nav.set_path(sub.to_string());
    nav.update_from_worker(sub.to_string(), dup(&sub_entries), None);
    for _ in 0..5 {
        nav.move_down();
    }
    assert_eq!(nav.selected_idx(), 5, "Initial move failed");
    for i in 0..200 {
        nav.set_path(base.to_string());
        nav.update_from_worker(base.to_string(), dup(&base_entries), None);
        nav.move_down();
        nav.set_path(sub.to_string());
        nav.update_from_worker(sub.to_string(), dup(&sub_entries), None);
        assert_eq!(nav.selected_idx(), 5, "Selection lost at iteration {}. Should have stayed at 5.", i);
    }
}

#[test]
fn test_navstate_filter_persistence() {
    let names =
        ["main.rs", "lib.rs", "cargo.toml", "readme.md", "app.rs", "ui.rs", "file_manager.rs", "config.json", "styles.css"];
    let mut entries = files(&names);
    entries.reverse();
    let mut nav = NavState::new("/base".to_string());
    nav.update_from_worker("/base".to_string(), entries, None);
    let target_name = "file_manager.rs";
    let start = position_of(&nav, target_name).expect("Target not found in nav state");
    for _ in 0..start {
        nav.move_down();
    }
    assert_eq!(nav.selected_entry().expect("No entry selected").name_str(), target_name);
    nav.set_filter("file".to_string());
    let final_entry = nav.selected_entry().expect("Selection lost after filter");
    assert_eq!(final_entry.name_str(), target_name, "Selection persistence failed! Filter was 'file'.");
}

#[test]
fn test_navstate_marker_persistence() {
    let mut entries = files(&["apple.txt", "banana.txt", "crab.txt"]);
    entries.reverse();
    let mut nav = NavState::new("/base".to_string());
    nav.update_from_worker("/base".to_string(), entries, None);
    let mut clipboard: Option<TextSet> = None;
    for target in ["apple.txt", "banana.txt"] {
        let pos = position_of(&nav, target).expect("target not found");
        while nav.selected_idx() > 0 {
            nav.move_up();
        }
        for _ in 0..pos {
            nav.move_down();
        }
        assert_eq!(nav.selected_entry().expect("No entry selected to mark").name_str(), target);
        nav.toggle_marker(&mut clipboard);
    }
    assert_eq!(nav.markers().len(), 2);
    nav.set_filter("crab".to_string());
    assert_eq!(nav.shown_entries_len(), 1);
    assert_eq!(nav.selected_entry().expect("No crab selected").name_str(), "crab.txt");
    let targets = nav.get_action_targets();
    assert_eq!(targets.len(), 2, "Should target 2 marked files even if hidden");
    assert!(targets.contains(&"/base/apple.txt".to_string()));
    assert!(targets.contains(&"/base/banana.txt".to_string()));
    assert!(!targets.contains(&"/base/cherry.txt".to_string()), "Should ignore selection when markers exist");
    nav.clear_filters();
    let apple_pos = position_of(&nav, "apple.txt").expect("Apple not found");
    while nav.selected_idx() < apple_pos {
        nav.move_down();
    }
    while nav.selected_idx() > apple_pos {
        nav.move_up();
    }
    nav.toggle_marker(&mut clipboard);
    assert_eq!(nav.markers().len(), 1);
    assert!(nav.markers().contains("/base/banana.txt"));
}
