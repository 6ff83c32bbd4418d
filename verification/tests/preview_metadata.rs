use runa::engine::fm::listing_flags;
use runa::engine::fs::{CopyRefusal, check_copy_target};
use runa::engine::identity::IdentityCache;
use runa::engine::metadata::{
    FileMetadata, FileMetadataCache, FileType, UnixMetadata, format_file_size, format_file_time, format_file_type,
    permission_string,
};
use runa::engine::preview::{
    PreviewNotice, looks_binary, notice_lines, notice_text, opened_file_notice, preview_from_lines, read_error_lines,
};

fn bare(path: &str, attributes: &str, file_type: FileType) -> FileMetadata {
    FileMetadata::from_parts(path.to_string(), None, None, None, None, attributes.to_string(), file_type, None)
}

#[test]
fn file_metada_empty_name() {
    let info = bare("", "", FileType::Other);
    assert_eq!(info.name(), "");
    assert_eq!(info.file_type(), format_file_type(&FileType::Other));
    assert_eq!(info.size(), format_file_size(None, false));
}

#[test]
fn file_metada_time_formatting_none() {
    let info = bare("dummy", "", FileType::File);
    let fmt = "%Y-%m-%d %H:%M";
    assert_eq!(info.modified(fmt), format_file_time(None, fmt));
    assert_eq!(info.created(fmt), format_file_time(None, fmt));
    assert_eq!(info.accessed(fmt), format_file_time(None, fmt));
    assert_eq!(info.modified(fmt), "-");
}

#[test]
fn file_metada_perms_width() {
    let info = bare("file.txt", "rwx", FileType::File);
    let perms = info.perms();
    assert!(perms.len() >= 3);
    assert!(perms.contains("rwx"));
    assert_eq!(perms, "rwx       ");
}

#[test]
fn file_metada_unix_meta_defaults() {
    let info = bare("dummy", "", FileType::File);
    assert_eq!(info.uid(), 0);
    assert_eq!(info.gid(), 0);
}

#[test]
fn metadata_from_stat_classifies_the_file() {
    let dir = FileMetadata::from_stat("/tmp/d".to_string(), false, true, false, 4096, None, None, None, 0o755, 1, 2);
    assert_eq!(dir.file_type(), "Directory");
    assert_eq!(dir.size(), "-");
    assert_eq!(dir.perms(), "drwxr-xr-x");
    assert_eq!(dir.uid(), 1);
    assert_eq!(dir.gid(), 2);
    let file = FileMetadata::from_stat("/tmp/a.txt".to_string(), true, false, false, 1500, None, None, None, 0o640, 0, 0);
    assert_eq!(file.file_type(), "File");
    assert_eq!(file.size(), "1.50 kB");
    assert_eq!(file.perms(), "-rw-r-----");
    assert_eq!(file.name(), "a.txt");
    let link = FileMetadata::from_stat("/tmp/l".to_string(), false, false, true, 3, None, None, None, 0o777, 0, 0);
    assert_eq!(link.file_type(), "Symlink");
    assert_eq!(link.perms(), "lrwxrwxrwx");
}

#[test]
fn permission_strings() {
    assert_eq!(permission_string(false, false, 0), "----------");
    assert_eq!(permission_string(false, false, 0o100644), "-rw-r--r--");
    assert_eq!(permission_string(true, false, 0o40700), "drwx------");
    assert_eq!(permission_string(true, true, 0o001), "d--------x");
}

#[test]
fn metadata_cache_texts() {
    let mut ug = IdentityCache::new();
    let meta = FileMetadata::from_parts(
        "/x/notes.md".to_string(),
        Some(12),
        None,
        None,
        None,
        "-rw-r--r--".to_string(),
        FileType::File,
        Some(UnixMetadata { uid: 0, gid: 0 }),
    );
    let c = FileMetadataCache::from(&meta, "%Y", &mut ug);
    assert_eq!(c.name(), "notes.md");
    assert_eq!(c.perms(), "-rw-r--r--");
    assert_eq!(c.size(), "12 B");
    assert_eq!(c.modified(), "-");
    assert_eq!(c.created(), "-");
    assert_eq!(c.accessed(), "-");
    assert_eq!(c.file_type(), "File");
    let again = FileMetadataCache::from(&meta, "%Y", &mut ug);
    assert_eq!(again.owner(), c.owner());
    assert_eq!(again.group(), c.group());
}

#[test]
fn binary_heads() {
    assert!(looks_binary(b"%PDF-1.7 rest"));
    assert!(looks_binary(b"abc\0def"));
    assert!(!looks_binary(b"%PDF"));
    assert!(!looks_binary(b"plain text\n"));
    assert!(!looks_binary(b""));
}

#[test]
fn preview_notices_in_order() {
    assert_eq!(opened_file_notice(Some((false, 10)), b"text"), Some(PreviewNotice::NotRegular));
    assert_eq!(opened_file_notice(Some((true, 5_242_880_001)), b"text"), Some(PreviewNotice::TooLarge));
    assert_eq!(opened_file_notice(Some((true, 5_242_880_000)), b"text"), None);
    assert_eq!(opened_file_notice(Some((true, 10)), b"a\0b"), Some(PreviewNotice::Binary));
    assert_eq!(opened_file_notice(None, b"%PDF-1"), Some(PreviewNotice::Binary));
    assert_eq!(opened_file_notice(None, b"hello"), None);
    assert_eq!(notice_text(PreviewNotice::NotFound), "[Error: File Not Found]");
    assert_eq!(notice_text(PreviewNotice::PermissionDenied), "[Error: Permission Denied]");
}

#[test]
fn preview_lines_fit_the_pane() {
    let lines = vec!["first\tline".to_string(), "second".to_string(), "third".to_string(), "fourth".to_string()];
    let shown = preview_from_lines(&lines, 2, 8);
    assert_eq!(shown, vec!["first   ", "second  ", "third   "]);
    let shown = preview_from_lines(&lines, 10, 4);
    assert_eq!(shown.len(), 4);
    assert_eq!(shown[0], "firs");
    let empty = preview_from_lines(&[], 5, 14);
    assert_eq!(empty, vec!["[Empty file]  "]);
    assert_eq!(notice_lines("[File too large for preview]", 6), vec!["[File "]);
    assert_eq!(read_error_lines("boom", 27), vec!["[Error reading file: boom] "]);
}

#[test]
fn copy_recursive_prevention_subdir() {
    assert_eq!(check_copy_target("/tmp/src", "/tmp/src/backup", Some("/tmp/src")), Err(CopyRefusal::IntoItself));
    assert_eq!(check_copy_target("/tmp/src", "/tmp/dst/backup", Some("/tmp/dst")), Ok(()));
    assert_eq!(check_copy_target("/tmp/src", "/tmp/srcx", Some("/tmp")), Ok(()));
    assert_eq!(check_copy_target("/tmp/src", "/tmp/src", Some("/tmp")), Err(CopyRefusal::IntoItself));
    assert_eq!(check_copy_target("/tmp/src", "/", None), Err(CopyRefusal::NoParent));
    assert_eq!(check_copy_target("/tmp/src", "/gone/x", None), Err(CopyRefusal::ParentMissing));
    assert_eq!(check_copy_target("/tmp/src", "/tmp/..", Some("/")), Err(CopyRefusal::NoFileName));
    assert_eq!(CopyRefusal::IntoItself.message(), "Cannot copy a directory into its own subdirectory");
}

#[test]
fn listing_flags_from_what_is_read() {
    assert_eq!(listing_flags(false, false, Some((false, 0o644)), "a.txt"), 0);
    assert_eq!(listing_flags(true, false, Some((true, 0o755)), ".git"), 1 + 2 + 32);
    assert_eq!(listing_flags(false, true, None, "link"), 8 + 16);
    assert_eq!(listing_flags(false, true, Some((true, 0o755)), "l"), 1 + 8 + 32);
    assert_eq!(listing_flags(false, false, None, ".hidden"), 2);
}
