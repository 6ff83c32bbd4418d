use runa::engine::fm::FileEntry;
use runa::engine::listing::{DirListOptions, EntryOrder, Formatter, compare_entries, extension};
use runa::engine::metadata::{FileType, format_file_size, format_file_type};
use runa::engine::sort::{SortConfig, SortMode, SortOrder};
use runa::engine::width::{is_control, sanitize_to_exact_width};
use runa::utils::collections::TextSet;

#[test]
fn ui_sanitization_and_exact_width() {
    let pane_width = 10;

    let cases = vec![
        ("short.txt", 10),
        ("very_long_filename.txt", 10),
        ("🦀_crab.rs", 10),
        ("\t_tab", 10),
    ];

    for (input, expected_width) in cases {
        let result = sanitize_to_exact_width(input, pane_width);

        let actual_width = unicode_width::UnicodeWidthStr::width(result.as_str());

        assert_eq!(
            actual_width, expected_width,
            "Failed to produce exact width for input: '{}'. Result was: '{}' (width: {})",
            input, result, actual_width
        );

        assert!(
            !result.chars().any(|c| c.is_control() && c != ' '),
            "Result contains control characters: {:?}",
            result
        );
    }
}

#[test]
fn sanitize_expands_tabs_and_drops_controls() {
    assert_eq!(sanitize_to_exact_width("\t_tab", 10), "    _tab  ");
    assert_eq!(sanitize_to_exact_width("a\u{7}b", 4), "ab  ");
    assert_eq!(sanitize_to_exact_width("abcdef", 3), "abc");
    assert_eq!(sanitize_to_exact_width("ab\tc", 8), "ab  c   ");
    assert_eq!(sanitize_to_exact_width("", 2), "  ");
    assert_eq!(sanitize_to_exact_width("🦀x", 1), " ");
}

#[test]
fn char_width_and_control_agree_with_std() {
    for c in ['a', ' ', '~', '\u{7f}', '\u{9f}', '\u{a0}', '🦀', '\t', '\u{0}'] {
        assert_eq!(is_control(c), c.is_control());
    }
    // a wide character takes two columns of the pane
    assert_eq!(sanitize_to_exact_width("🦀x", 3), "🦀x");
    assert_eq!(sanitize_to_exact_width("🦀x", 2), "🦀");
    assert_eq!(sanitize_to_exact_width("日本", 5), "日本 ");
}

fn entries() -> Vec<FileEntry> {
    let normal = FileEntry::new("normal.txt".to_string(), 0, None);
    let hidden = FileEntry::new(".hidden".to_string(), FileEntry::IS_HIDDEN, None);
    let system = FileEntry::new("system.sys".to_string(), FileEntry::IS_SYSTEM, None);
    let symlink = FileEntry::new("symlink".to_string(), FileEntry::IS_SYMLINK, Some("target".to_string()));
    vec![normal, hidden, system, symlink]
}

#[test]
fn formatter_filters_entries_by_flags() {
    let mut entries = entries();

    let list_hide = DirListOptions {
        dirs_first: true,
        show_hidden: false,
        show_system: false,
        show_symlink: false,
        case_insensitive: true,
    };
    let short_config = SortConfig::default();

    let fmt = Formatter::new(list_hide, short_config, TextSet::new());
    fmt.filter_entries(&mut entries);

    assert_eq!(entries.len(), 1);
    assert_eq!(entries[0].name_str(), "normal.txt");

    let mut entries = self::entries();

    let list_show = DirListOptions {
        dirs_first: true,
        show_hidden: true,
        show_system: true,
        show_symlink: true,
        case_insensitive: true,
    };

    let fmt = Formatter::new(list_show, short_config, TextSet::new());
    fmt.filter_entries(&mut entries);
    assert_eq!(entries.len(), 4);
    assert!(entries.iter().any(|e| e.name_str() == ".hidden"));
    assert!(entries.iter().any(|e| e.name_str() == "system.sys"));
    assert!(entries.iter().any(|e| e.name_str() == "symlink"));
    assert!(entries.iter().any(|e| e.name_str() == "normal.txt"));
}

#[test]
fn always_show_keeps_hidden_names() {
    let mut always = TextSet::new();
    always.insert(".Hidden".to_string());
    let list = DirListOptions {
        dirs_first: false,
        show_hidden: false,
        show_system: false,
        show_symlink: true,
        case_insensitive: true,
    };
    let fmt = Formatter::new(list, SortConfig::default(), always);
    let mut es = entries();
    fmt.filter_entries(&mut es);
    let names: Vec<&str> = es.iter().map(|e| e.name_str()).collect();
    assert_eq!(names, vec!["normal.txt", ".hidden", "symlink"]);
}

fn names(es: &[FileEntry]) -> Vec<String> {
    es.iter().map(|e| e.name_str().to_string()).collect()
}

#[test]
fn sorts_by_name_directories_first() {
    let list = DirListOptions {
        dirs_first: true,
        show_hidden: true,
        show_symlink: true,
        show_system: true,
        case_insensitive: true,
    };
    let fmt = Formatter::new(list, SortConfig::from_parts(SortMode::Name, SortOrder::Ascending), TextSet::new());
    let mut es = vec![
        FileEntry::new("b.txt".to_string(), 0, None),
        FileEntry::new("Zdir".to_string(), FileEntry::IS_DIR, None),
        FileEntry::new("A.txt".to_string(), 0, None),
        FileEntry::new("adir".to_string(), FileEntry::IS_DIR, None),
    ];
    assert!(fmt.sort_entries(&mut es));
    assert_eq!(names(&es), vec!["adir", "Zdir", "A.txt", "b.txt"]);

    let fmt = Formatter::new(list, SortConfig::from_parts(SortMode::Name, SortOrder::Descending), TextSet::new());
    assert!(fmt.sort_entries(&mut es));
    assert_eq!(names(&es), vec!["Zdir", "adir", "b.txt", "A.txt"]);
}

#[test]
fn sorts_naturally_and_by_extension() {
    let list = DirListOptions {
        dirs_first: false,
        show_hidden: true,
        show_symlink: true,
        show_system: true,
        case_insensitive: true,
    };
    let fmt = Formatter::new(list, SortConfig::from_parts(SortMode::Natural, SortOrder::Ascending), TextSet::new());
    let mut es = vec![
        FileEntry::new("file10.txt".to_string(), 0, None),
        FileEntry::new("file2.txt".to_string(), 0, None),
        FileEntry::new("file1.txt".to_string(), 0, None),
    ];
    fmt.sort_by_natural(&mut es);
    assert_eq!(names(&es), vec!["file1.txt", "file2.txt", "file10.txt"]);

    let fmt = Formatter::new(list, SortConfig::from_parts(SortMode::Extension, SortOrder::Ascending), TextSet::new());
    let mut es = vec![
        FileEntry::new("b.rs".to_string(), 0, None),
        FileEntry::new("a.txt".to_string(), 0, None),
        FileEntry::new("c.md".to_string(), 0, None),
        FileEntry::new("noext".to_string(), 0, None),
    ];
    assert!(fmt.sort_entries(&mut es));
    assert_eq!(names(&es), vec!["noext", "c.md", "b.rs", "a.txt"]);

    let fmt = Formatter::new(list, SortConfig::from_parts(SortMode::Size, SortOrder::Ascending), TextSet::new());
    assert!(!fmt.sort_entries(&mut es));
    assert_eq!(names(&es), vec!["noext", "c.md", "b.rs", "a.txt"]);
}

#[test]
fn sorts_by_metadata_keys() {
    let list = DirListOptions {
        dirs_first: true,
        show_hidden: true,
        show_symlink: true,
        show_system: true,
        case_insensitive: false,
    };
    let fmt = Formatter::new(list, SortConfig::from_parts(SortMode::Size, SortOrder::Descending), TextSet::new());
    let mut es = vec![
        FileEntry::new("small".to_string(), 0, None),
        FileEntry::new("dir".to_string(), FileEntry::IS_DIR, None),
        FileEntry::new("big".to_string(), 0, None),
        FileEntry::new("same".to_string(), 0, None),
    ];
    let keys = vec![10u128, 0, 500, 10];
    let column = vec!["10 B".to_string(), "-".to_string(), "500 B".to_string(), "10 B".to_string()];
    let col = fmt.sort_by_keys(&mut es, keys, column);
    assert_eq!(names(&es), vec!["dir", "big", "same", "small"]);
    assert_eq!(col, vec!["-", "500 B", "10 B", "10 B"]);
}

#[test]
fn extension_follows_path_rules() {
    assert_eq!(extension("archive.tar.gz"), Some("gz".to_string()));
    assert_eq!(extension(".bashrc"), None);
    assert_eq!(extension("noext"), None);
    assert_eq!(extension("a."), Some(String::new()));
    assert_eq!(extension(".."), None);
    for n in ["archive.tar.gz", ".bashrc", "noext", "a.", "x.y"] {
        let expected = std::path::Path::new(n).extension().map(|e| e.to_string_lossy().into_owned());
        assert_eq!(extension(n), expected);
    }
}

#[test]
fn compare_is_antisymmetric_on_samples() {
    let list = DirListOptions {
        dirs_first: true,
        show_hidden: true,
        show_symlink: true,
        show_system: true,
        case_insensitive: false,
    };
    let a = FileEntry::new("a10".to_string(), 0, None);
    let b = FileEntry::new("a9".to_string(), 0, None);
    for kind in [EntryOrder::Name, EntryOrder::Natural, EntryOrder::Extension] {
        for asc in [true, false] {
            assert_eq!(compare_entries(kind, list, asc, &a, &b), -compare_entries(kind, list, asc, &b, &a));
        }
    }
    assert_eq!(compare_entries(EntryOrder::Natural, list, true, &b, &a), -1);
    assert_eq!(compare_entries(EntryOrder::Name, list, true, &b, &a), 1);
}

#[test]
fn file_type_and_size_texts() {
    assert_eq!(format_file_type(&FileType::Directory), "Directory");
    assert_eq!(format_file_type(&FileType::Symlink), "Symlink");
    assert_eq!(format_file_size(Some(1500), false), humansize::format_size(1500u64, humansize::DECIMAL));
    assert_eq!(format_file_size(Some(1500), true), "-");
    assert_eq!(format_file_size(None, false), "-");
}

#[test]
fn file_entry_flags() -> Result<(), Box<dyn std::error::Error>> {
    let fe_file = FileEntry::new("file.txt".to_string(), 0, None);
    assert!(!fe_file.is_dir());
    assert_eq!(fe_file.name_str(), "file.txt");

    let flags = FileEntry::IS_DIR | FileEntry::IS_HIDDEN;
    let fe_dir = FileEntry::new(".hidden_folder".to_string(), flags, None);
    assert!(fe_dir.is_dir());
    assert!(!fe_dir.is_symlink());
    Ok(())
}
