use msy::streaming::{DestFileState, DestIndex, SyncStats};

#[test]
fn test_dest_index() {
    let mut index = DestIndex::new();

    index.insert(
        "file.txt".to_string(),
        DestFileState { size: 1024, mtime: 1234567890, mode: 0o644, is_dir: false, delta_info: None },
    );

    assert!(index.contains("file.txt"));
    assert!(!index.contains("other.txt"));

    let state = index.get("file.txt").unwrap();
    assert_eq!(state.size, 1024);

    index.remove("file.txt");
    assert!(!index.contains("file.txt"));
}

#[test]
fn test_sync_stats() {
    let mut stats = SyncStats::new();
    stats.files_ok = 100;
    stats.bytes_transferred = 1024 * 1024;
    stats.delta_files = 10;
    stats.delta_bytes_saved = 512 * 1024;

    assert_eq!(stats.files_ok, 100);
    assert_eq!(stats.delta_files, 10);
}

fn state(size: u64) -> DestFileState {
    DestFileState { size, mtime: 0, mode: 0o644, is_dir: false, delta_info: None }
}

#[test]
fn dest_index_insert_replaces() {
    let mut index = DestIndex::new();
    assert!(index.is_empty());
    index.insert("a".to_string(), state(1));
    index.insert("b".to_string(), state(2));
    index.insert("a".to_string(), state(3));
    assert_eq!(index.len(), 2);
    assert_eq!(index.get("a").unwrap().size, 3);
    assert_eq!(index.get("b").unwrap().size, 2);
}

#[test]
fn dest_index_remove_returns_state() {
    let mut index = DestIndex::new();
    index.insert("x/y".to_string(), state(7));
    assert!(index.remove("nope").is_none());
    assert_eq!(index.len(), 1);
    assert_eq!(index.remove("x/y").unwrap().size, 7);
    assert!(index.is_empty());
    assert!(index.get("x/y").is_none());
}

#[test]
fn dest_index_remaining_paths_lists_each_once() {
    let mut index = DestIndex::new();
    index.insert("one".to_string(), state(1));
    index.insert("two".to_string(), state(2));
    index.insert("one".to_string(), state(11));
    index.remove("two");
    index.insert("three".to_string(), state(3));
    let mut paths: Vec<(String, u64)> =
        index.remaining_paths().iter().map(|(p, s)| (p.clone(), s.size)).collect();
    paths.sort();
    assert_eq!(paths, vec![("one".to_string(), 11), ("three".to_string(), 3)]);
}

#[test]
fn sync_stats_default_is_zero() {
    let s = SyncStats::default();
    assert_eq!(s.files_ok, 0);
    assert_eq!(s.files_err, 0);
    assert_eq!(s.bytes_transferred, 0);
    assert_eq!(s.delta_files, 0);
    assert_eq!(s.delta_bytes_saved, 0);
    assert_eq!(s.dirs_created, 0);
    assert_eq!(s.symlinks_created, 0);
    assert_eq!(s.deleted, 0);
    assert_eq!(s.hardlinks_created, 0);
}

#[test]
fn remaining_paths_after_source_removal_are_deletions() {
    let mut index = DestIndex::new();
    for (p, size) in [("keep/a", 1u64), ("gone/b", 2), ("gone/c", 3)] {
        index.insert(p.to_string(), state(size));
    }
    for source in ["keep/a", "new/file"] {
        index.remove(source);
    }
    let mut left: Vec<(String, u64)> = index.remaining_paths().iter().map(|(p, s)| (p.clone(), s.size)).collect();
    left.sort();
    assert_eq!(left, vec![("gone/b".to_string(), 2), ("gone/c".to_string(), 3)]);
}
