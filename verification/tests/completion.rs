use runa::app::autocomplete::{completed_input, completion_split, AutoComplete};
use runa::engine::find::find_args;
use runa::engine::proc::{completion_args, completion_names};
use runa::engine::sort::{SortConfig, SortMode, SortOrder};
use runa::utils::expand_home;

#[test]
fn completion_asks_fd_for_directories() {
    assert_eq!(completion_args("ph", false), vec!["--type", "d", "--max-depth", "1", "^ph"]);
    assert_eq!(completion_args("", true), vec!["--type", "d", "--max-depth", "1", "--hidden", "^"]);
}

#[test]
fn completion_names_trim_and_sort() {
    let lines = vec!["/t/photos/".to_string(), "/t/Music//".to_string(), "/t/apps".to_string(), "/t/Zeta/".to_string()];
    assert_eq!(completion_names(&lines), vec!["/t/apps", "/t/Music", "/t/photos", "/t/Zeta"]);
    assert!(completion_names(&[]).is_empty());
}

#[test]
fn find_asks_fd_for_everything() {
    assert_eq!(
        find_args("/base", 2000),
        vec![".", "/base", "--type", "f", "--type", "d", "--hidden", "--color", "never", "--max-results", "2000"]
    );
}

#[test]
fn completion_input_splits_after_last_separator() {
    assert_eq!(completion_split("/home/u/do"), Some(("/home/u/".to_string(), "do".to_string())));
    assert_eq!(completion_split("docs/"), Some(("docs/".to_string(), "".to_string())));
    assert_eq!(completion_split("docs"), None);
    assert_eq!(completed_input("/home/u/", "/home/u/docs"), "/home/u/docs/");
    assert_eq!(completed_input("/home/u", "docs"), "/home/u/docs/");
    assert_eq!(completed_input("/home/u/", "docs/"), "/home/u/docs/");
}

#[test]
fn suggestions_are_offered_in_turn() {
    let mut ac = AutoComplete::new();
    assert!(ac.needs_update("/a/"));
    assert_eq!(ac.take_next(), None);
    ac.update(vec!["/a/x".to_string(), "/a/y".to_string()], "/a/");
    assert!(!ac.needs_update("/a/"));
    assert!(ac.needs_update("/a/b"));
    assert_eq!(ac.last_input(), "/a/");
    assert_eq!(ac.suggestions().len(), 2);
    assert_eq!(ac.take_next().as_deref(), Some("/a/x"));
    assert_eq!(ac.take_next().as_deref(), Some("/a/y"));
    assert_eq!(ac.current().as_deref(), Some("/a/x"));
    ac.advance();
    assert_eq!(ac.current().as_deref(), Some("/a/y"));
    ac.update(Vec::new(), "/z/");
    assert!(ac.needs_update("/z/"));
    assert_eq!(ac.current(), None);
}

#[test]
fn home_is_put_for_tilde() {
    assert_eq!(expand_home("~", Some("/home/u")), "/home/u");
    assert_eq!(expand_home("~/docs", Some("/home/u")), "/home/u/docs");
    assert_eq!(expand_home("~docs", Some("/home/u")), "~docs");
    assert_eq!(expand_home("/etc", Some("/home/u")), "/etc");
    assert_eq!(expand_home("~/docs", None), "~/docs");
}

#[test]
fn choosing_the_same_sort_key_flips_direction() {
    let mut s = SortConfig::new();
    s.select_mode(SortMode::Natural);
    assert_eq!(s.order(), SortOrder::Descending);
    s.select_mode(SortMode::Size);
    assert_eq!(s.mode(), SortMode::Size);
    assert_eq!(s.order(), SortOrder::Descending);
    s.select_mode(SortMode::Size);
    assert_eq!(s.order(), SortOrder::Ascending);
}
