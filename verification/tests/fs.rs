use runa::engine::fs::{get_unused_path, is_preview_deny, is_temp_file, numbered_file_name};
use std::cell::RefCell;
use std::collections::HashSet;

struct Disk {
    files: RefCell<HashSet<String>>,
}

impl Disk {
    fn new() -> Self {
        Disk { files: RefCell::new(HashSet::new()) }
    }
    fn create(&self, p: &str) {
        self.files.borrow_mut().insert(p.to_string());
    }
    fn unused(&self, p: &str) -> String {
        get_unused_path(p, |q: &str| self.files.borrow().contains(q))
    }
}

#[test]
fn path_collision_increments() -> Result<(), Box<dyn std::error::Error>> {
    let disk = Disk::new();
    let path = "/tmp/dir/data.csv";

    assert_eq!(disk.unused(path), path);

    disk.create(path);
    assert_eq!(disk.unused(path), "/tmp/dir/data_1.csv");

    disk.create("/tmp/dir/data_1.csv");
    assert_eq!(disk.unused(path), "/tmp/dir/data_2.csv");
    Ok(())
}

#[test]
fn hidden_file_collision() -> Result<(), Box<dyn std::error::Error>> {
    let disk = Disk::new();
    let path = "/tmp/dir/.config";
    disk.create(path);
    assert_eq!(disk.unused(path), "/tmp/dir/.config_1");
    Ok(())
}

#[test]
fn get_unused_path_basic() -> Result<(), Box<dyn std::error::Error>> {
    let disk = Disk::new();
    let file_path = "/tmp/dir/test.txt";
    let path1 = disk.unused(file_path);
    assert_eq!(path1, file_path);
    disk.create(file_path);
    let path2 = disk.unused(file_path);
    assert_eq!(path2, "/tmp/dir/test_1.txt");
    disk.create(&path2);
    let path3 = disk.unused(file_path);
    assert_eq!(path3, "/tmp/dir/test_2.txt");
    Ok(())
}

#[test]
fn get_unused_path_no_extension() -> Result<(), Box<dyn std::error::Error>> {
    let disk = Disk::new();
    disk.create("/tmp/dir/my_folder");
    assert_eq!(disk.unused("/tmp/dir/my_folder"), "/tmp/dir/my_folder_1");
    Ok(())
}

#[test]
fn get_unused_path_hidden_file() -> Result<(), Box<dyn std::error::Error>> {
    let disk = Disk::new();
    disk.create("/tmp/dir/.gitignore");
    assert_eq!(disk.unused("/tmp/dir/.gitignore"), "/tmp/dir/.gitignore_1");
    Ok(())
}

#[test]
fn get_unused_path_complex_extension() -> Result<(), Box<dyn std::error::Error>> {
    let disk = Disk::new();
    disk.create("/tmp/dir/archive.tar.gz");
    let name = disk.unused("/tmp/dir/archive.tar.gz");
    assert!(name.contains("_1"), "Suffix missing: got {:?}", name);
    assert_eq!(name, "/tmp/dir/archive.tar_1.gz");
    Ok(())
}

#[test]
fn numbered_names() {
    assert_eq!(numbered_file_name("notes.txt", 1), "notes_1.txt");
    assert_eq!(numbered_file_name("notes", 12), "notes_12");
    assert_eq!(numbered_file_name(".env", 3), ".env_3");
}

#[test]
fn preview_deny_and_temp_files() {
    assert!(is_preview_deny("/x/lib.a"));
    assert!(is_preview_deny("/x/archive.zip"));
    assert!(!is_preview_deny("/x/archive.ZIP"));
    assert!(!is_preview_deny("/x/readme"));
    assert!(is_temp_file("/x/movie.CRDOWNLOAD"));
    assert!(is_temp_file("/x/file.swp"));
    assert!(is_temp_file("/x/notes.txt~"));
    assert!(is_temp_file("/x/~$report.docx"));
    assert!(is_temp_file("/x/.~lock.odt#"));
    assert!(!is_temp_file("/x/notes.txt"));
}
