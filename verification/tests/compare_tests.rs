use chamon::baseline::Baseline;
use chamon::classify::FileEntry;
use chamon::classify::TrackMode;
use chamon::compare::compare;
use chamon::compare::entry_changed;

fn content_entry(path: &str, checksum: &str, size: u64) -> FileEntry {
    FileEntry {
        path: path.to_string(),
        track_mode: TrackMode::Content {
            checksum: checksum.to_string(),
            content: String::new(),
            size,
            modified: 1700000000,
            permissions: 0o644,
            owner: 0,
            group: 0,
        },
    }
}

fn existence_entry(path: &str, size: u64, modified: u64, permissions: u32) -> FileEntry {
    FileEntry {
        path: path.to_string(),
        track_mode: TrackMode::Existence { size, modified, permissions, owner: 0, group: 0 },
    }
}

fn baseline_with(entries: Vec<FileEntry>) -> Baseline {
    let mut b = Baseline::new("/".to_string(), "/".to_string());
    for e in entries {
        b.add_file(e.path.clone(), e);
    }
    b
}

#[test]
fn comparing_a_baseline_with_itself_finds_nothing() {
    let a = baseline_with(vec![
        content_entry("/a", "h1", 1),
        existence_entry("/b", 2, 10, 0o644),
    ]);
    let r = compare(&a, &a);
    assert_eq!(r.changed, 0);
    assert_eq!(r.new, 0);
    assert_eq!(r.deleted, 0);
    assert_eq!(r.packages_added, 0);
    assert_eq!(r.packages_removed, 0);
    assert_eq!(r.packages_upgraded, 0);
}

#[test]
fn one_added_one_removed_counts_as_new_and_deleted() {
    let a = baseline_with(vec![content_entry("/keep", "h", 1), content_entry("/gone", "h", 1)]);
    let b = baseline_with(vec![content_entry("/keep", "h", 1), content_entry("/fresh", "h", 1)]);
    let r = compare(&a, &b);
    assert_eq!(r.new, 1);
    assert_eq!(r.deleted, 1);
    assert_eq!(r.changed, 0);
}

#[test]
fn content_entries_compare_by_checksum_alone() {
    let a = baseline_with(vec![content_entry("/f", "hash-one", 5)]);
    let changed = baseline_with(vec![content_entry("/f", "hash-two", 5)]);
    let same_hash_other_size = baseline_with(vec![content_entry("/f", "hash-one", 99)]);
    assert_eq!(compare(&a, &changed).changed, 1);
    assert_eq!(compare(&a, &same_hash_other_size).changed, 0);
}

#[test]
fn existence_entries_compare_by_size_time_and_permissions() {
    let a = baseline_with(vec![existence_entry("/f", 5, 10, 0o644)]);
    let size_differs = baseline_with(vec![existence_entry("/f", 6, 10, 0o644)]);
    let time_differs = baseline_with(vec![existence_entry("/f", 5, 11, 0o644)]);
    let perms_differ = baseline_with(vec![existence_entry("/f", 5, 10, 0o600)]);
    let unchanged = baseline_with(vec![existence_entry("/f", 5, 10, 0o644)]);
    assert_eq!(compare(&a, &size_differs).changed, 1);
    assert_eq!(compare(&a, &time_differs).changed, 1);
    assert_eq!(compare(&a, &perms_differ).changed, 1);
    assert_eq!(compare(&a, &unchanged).changed, 0);
}

#[test]
fn mixed_modes_compare_by_metadata() {
    let a = baseline_with(vec![content_entry("/f", "h", 5)]);
    let b = baseline_with(vec![existence_entry("/f", 5, 1700000000, 0o644)]);
    // Same size, time and permissions: unchanged despite the mode switch.
    assert_eq!(compare(&a, &b).changed, 0);
    let c = baseline_with(vec![existence_entry("/f", 6, 1700000000, 0o644)]);
    assert_eq!(compare(&a, &c).changed, 1);
}

#[test]
fn entry_changed_examples() {
    let c1 = content_entry("/f", "h1", 5).track_mode;
    let c2 = content_entry("/f", "h2", 5).track_mode;
    let e1 = existence_entry("/f", 5, 1700000000, 0o644).track_mode;
    assert!(entry_changed(&c1, &c2));
    assert!(!entry_changed(&c1, &c1));
    assert!(!entry_changed(&c1, &e1));
    assert!(!entry_changed(&e1, &e1));
}

#[test]
fn overwriting_a_path_keeps_file_count_consistent() {
    let mut b = Baseline::new("/".to_string(), "/".to_string());
    assert_eq!(b.file_count, 0);
    let e = content_entry("/a", "h", 1);
    b.add_file(e.path.clone(), e);
    assert_eq!(b.file_count, 1);
    let e2 = content_entry("/a", "h2", 1);
    b.add_file(e2.path.clone(), e2);
    assert_eq!(b.file_count, 1);
    let e3 = content_entry("/b", "h", 1);
    b.add_file(e3.path.clone(), e3);
    assert_eq!(b.file_count, 2);
    assert_eq!(b.files.len(), 2);
}
