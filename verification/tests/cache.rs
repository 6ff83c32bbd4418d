use runa::engine::cache::{DIR_CACHE_CAP, DirCache};
use runa::engine::fm::FileEntry;
use runa::engine::listing::DirListOptions;
use runa::engine::sort::SortConfig;

fn list() -> DirListOptions {
    DirListOptions { dirs_first: true, show_hidden: true, show_symlink: true, show_system: false, case_insensitive: true }
}

fn entries(names: &[&str]) -> Vec<FileEntry> {
    names.iter().map(|n| FileEntry::new(n.to_string(), 0, None)).collect()
}

fn names(cache: &DirCache, path: &str) -> Option<Vec<String>> {
    cache.get(path, SortConfig::default(), &list()).map(|d| d.entries().iter().map(|e| e.name().to_string()).collect())
}

#[test]
fn newer_listing_replaces_older_one() {
    let mut cache = DirCache::new();
    let sort = SortConfig::default();
    cache.insert_if_newer("/a", sort, &list(), entries(&["x"]), None, 5);
    cache.insert_if_newer("/a", sort, &list(), entries(&["old"]), None, 3);
    assert_eq!(names(&cache, "/a"), Some(vec!["x".to_string()]));
    cache.insert_if_newer("/a", sort, &list(), entries(&["y", "z"]), Some(vec!["1 B".to_string(), "2 B".to_string()]), 5);
    assert_eq!(names(&cache, "/a"), Some(vec!["y".to_string(), "z".to_string()]));
    let kept = cache.get("/a", sort, &list()).unwrap();
    assert_eq!(kept.request_id(), 5);
    assert_eq!(kept.sort_column().map(|c| c.len()), Some(2));
    assert!(cache.get("/a", sort, &DirListOptions { show_hidden: false, ..list() }).is_none());
}

#[test]
fn full_cache_drops_the_oldest_listing() {
    let mut cache = DirCache::new();
    let sort = SortConfig::default();
    for i in 0..DIR_CACHE_CAP {
        cache.insert_if_newer(&format!("/d{}", i), sort, &list(), entries(&["e"]), None, i as u64);
    }
    assert!(names(&cache, "/d0").is_some());
    cache.insert_if_newer("/new", sort, &list(), entries(&["n"]), None, 100);
    assert!(names(&cache, "/d0").is_none());
    assert!(names(&cache, "/d1").is_some());
    assert!(names(&cache, "/new").is_some());
}

#[test]
fn invalidating_a_directory_drops_its_listings() {
    let mut cache = DirCache::new();
    let sort = SortConfig::default();
    cache.insert_if_newer("/a", sort, &list(), entries(&["x"]), None, 1);
    cache.insert_if_newer("/b", sort, &list(), entries(&["y"]), None, 1);
    cache.invalidate_path("/a");
    assert!(names(&cache, "/a").is_none());
    assert_eq!(names(&cache, "/b"), Some(vec!["y".to_string()]));
}
