use runa::ui::input_field::input_field_view;
use runa::ui::panes::{
    RightCol, build_right_field, left_remaining, pane_show_col, right_col_at, right_col_config, right_col_for,
    right_col_width, truncate_owned,
};

#[test]
fn right_column_needs_room_for_the_name() {
    assert!(!pane_show_col(40, 0));
    assert!(pane_show_col(25, 12));
    assert!(!pane_show_col(24, 12));
}

#[test]
fn right_column_reserve() {
    assert_eq!(RightCol::none().reserve(), 0);
    assert_eq!(RightCol { text: Some("1.2 kB"), width: 6 }.reserve(), 7);
    assert_eq!(RightCol { text: None, width: 6 }.reserve(), 0);
}

#[test]
fn truncation_marks_the_cut() {
    assert_eq!(truncate_owned("short", 10), "short");
    assert_eq!(truncate_owned("exactly", 7), "exactly");
    assert_eq!(truncate_owned("abcdefgh", 1), "…");
    assert_eq!(truncate_owned("abcdefgh", 0), "…");
    // characters are kept while the running width stays below 5, then the last is dropped
    assert_eq!(truncate_owned("abcdefgh", 5), "abc…");
    assert_eq!(truncate_owned("abcdefgh", 2), "…");
    // a wide character counts for two columns
    assert_eq!(truncate_owned("日本語のファイル", 6), "日…");
}

#[test]
fn left_room_never_below_zero() {
    assert_eq!(left_remaining(40, 10, 7), 23);
    assert_eq!(left_remaining(10, 8, 7), 0);
    assert_eq!(left_remaining(5, 1, 9), 0);
}

#[test]
fn right_field_is_right_aligned() {
    assert_eq!(build_right_field("1 kB", 20, 10, 6), "      1 kB");
    assert_eq!(build_right_field("1 kB", 20, 10, 6).chars().count(), 10);
    assert_eq!(build_right_field("abc", 5, 10, 3), " abc");
}

#[test]
fn right_column_width_is_capped() {
    assert_eq!(right_col_width(None), 0);
    let col = vec!["1 kB".to_string(), "12.5 MB".to_string(), String::new()];
    assert_eq!(right_col_width(Some(&col)), 7);
    let long = vec!["x".repeat(40)];
    assert_eq!(right_col_width(Some(&long)), 24);
    assert_eq!(right_col_config(30, Some(&col)), (true, 7));
    assert_eq!(right_col_config(19, Some(&col)), (false, 7));
}

#[test]
fn right_column_values_per_row() {
    let col = vec!["1 kB".to_string(), String::new()];
    assert_eq!(right_col_at(Some(&col), 0), Some("1 kB"));
    assert_eq!(right_col_at(Some(&col), 1), None);
    assert_eq!(right_col_at(Some(&col), 2), None);
    assert_eq!(right_col_at(None, 0), None);
    let shown = right_col_for(true, 4, Some(&col), 0);
    assert_eq!(shown.text, Some("1 kB"));
    assert_eq!(shown.width, 4);
    let hidden = right_col_for(false, 4, Some(&col), 0);
    assert_eq!(hidden.text, None);
    assert_eq!(hidden.width, 0);
}

#[test]
fn input_field_keeps_the_end_in_view() {
    assert_eq!(input_field_view("hello", 2, 10), ("hello", 2));
    assert_eq!(input_field_view("hello", 99, 10), ("hello", 5));
    assert_eq!(input_field_view("hello world", 11, 5), ("world", 5));
    assert_eq!(input_field_view("hello world", 3, 5), ("world", 0));
    assert_eq!(input_field_view("hello world", 8, 5), ("world", 2));
    assert_eq!(input_field_view("日本語", 3, 4), ("本語", 4));
    assert_eq!(input_field_view("日本語", 0, 3), ("語", 0));
}
