use chamon::baseline::Baseline;
use chamon::classify::FileMetadata;
use chamon::classify::TrackMode;
use chamon::config::BaselineConfig;
use chamon::progress::ProgressUpdate;
use chamon::scanner::create_initial_baseline;
use chamon::scanner::plan_worker_count;
use chamon::scanner::unit_in_scope;
use chamon::scanner::worker_step;
use chamon::scanner::WorkerStep;
use chamon::scanner::CancelToken;
use chamon::scanner::ScanError;
use chamon::scanner::ScanRoot;
use chamon::scanner::TreeNode;

const SHA256_HELLO: &str = "2cf24dba5fb0a30e26e83b2ac5b9e29e1b161e5c1fa7425e73043362938b9824";

fn meta(size: u64) -> FileMetadata {
    FileMetadata { size, modified: 1700000000, permissions: 0o644, owner: 0, group: 0 }
}

fn file(name: &str, size: u64, text: Option<&str>) -> TreeNode {
    TreeNode::File { name: name.to_string(), meta: meta(size), text: text.map(|t| t.to_string()) }
}

fn dir(name: &str, entries: Vec<TreeNode>) -> TreeNode {
    TreeNode::Dir { name: name.to_string(), entries }
}

fn sample_root() -> ScanRoot {
    ScanRoot::Present {
        entries: vec![
            dir("a", vec![file("x.txt", 5, Some("hello")), file("y.bin", 5, None)]),
            dir("b", vec![file("lib.so", 7, Some("zzzzzzz"))]),
        ],
    }
}

fn run(root: &ScanRoot) -> Result<Baseline, ScanError> {
    let config = BaselineConfig::default();
    let cancel = CancelToken::new();
    let mut events: Vec<ProgressUpdate> = Vec::new();
    create_initial_baseline("/scan", "/", root, &config, &cancel, &mut events)
}

#[test]
fn end_to_end_scan_classifies_and_remaps() {
    let root = sample_root();
    let b = run(&root).expect("scan succeeds");
    assert_eq!(b.file_count, 3);
    assert!(!b.is_delta);
    assert_eq!(b.scan_path, "/scan");
    assert_eq!(b.remap_to, "/");
    match &b.files.get("/a/x.txt").expect("x.txt tracked").track_mode {
        TrackMode::Content { checksum, content, .. } => {
            assert_eq!(checksum, SHA256_HELLO);
            assert_eq!(content, "hello");
        }
        TrackMode::Existence { .. } => panic!("x.txt should carry content"),
    }
    assert!(matches!(
        b.files.get("/a/y.bin").expect("y.bin tracked").track_mode,
        TrackMode::Existence { .. }
    ));
    assert!(matches!(
        b.files.get("/b/lib.so").expect("lib.so tracked").track_mode,
        TrackMode::Existence { .. }
    ));
    assert!(b.files.get("/c/none").is_none());
}

#[test]
fn scanning_unchanged_tree_twice_yields_equal_files() {
    let root = sample_root();
    let b1 = run(&root).expect("first scan succeeds");
    let b2 = run(&root).expect("second scan succeeds");
    assert_eq!(b1.file_count, b2.file_count);
    for key in ["/a/x.txt", "/a/y.bin", "/b/lib.so"] {
        let e1 = b1.files.get(key).expect("tracked in first scan");
        let e2 = b2.files.get(key).expect("tracked in second scan");
        assert_eq!(e1.path, e2.path);
        match (&e1.track_mode, &e2.track_mode) {
            (
                TrackMode::Content { checksum: c1, content: t1, size: s1, modified: m1, .. },
                TrackMode::Content { checksum: c2, content: t2, size: s2, modified: m2, .. },
            ) => {
                assert_eq!(c1, c2);
                assert_eq!(t1, t2);
                assert_eq!(s1, s2);
                assert_eq!(m1, m2);
            }
            (
                TrackMode::Existence { size: s1, modified: m1, permissions: p1, .. },
                TrackMode::Existence { size: s2, modified: m2, permissions: p2, .. },
            ) => {
                assert_eq!(s1, s2);
                assert_eq!(m1, m2);
                assert_eq!(p1, p2);
            }
            _ => panic!("tracking mode differs between scans"),
        }
    }
}

#[test]
fn claim_order_does_not_change_the_map() {
    let forward = sample_root();
    let reversed = ScanRoot::Present {
        entries: vec![
            dir("b", vec![file("lib.so", 7, Some("zzzzzzz"))]),
            dir("a", vec![file("x.txt", 5, Some("hello")), file("y.bin", 5, None)]),
        ],
    };
    let b1 = run(&forward).expect("forward scan succeeds");
    let b2 = run(&reversed).expect("reversed scan succeeds");
    assert_eq!(b1.file_count, b2.file_count);
    for key in ["/a/x.txt", "/a/y.bin", "/b/lib.so"] {
        assert!(b1.files.get(key).is_some());
        assert!(b2.files.get(key).is_some());
    }
}

#[test]
fn cancellation_before_any_claim_yields_cancelled_and_no_baseline() {
    let root = sample_root();
    let config = BaselineConfig::default();
    let cancel = CancelToken::new();
    cancel.cancel();
    let mut events: Vec<ProgressUpdate> = Vec::new();
    let r = create_initial_baseline("/scan", "/", &root, &config, &cancel, &mut events);
    assert!(matches!(r, Err(ScanError::Cancelled)));
}

#[test]
fn missing_scan_root_fails_not_found() {
    let config = BaselineConfig::default();
    let cancel = CancelToken::new();
    let mut events: Vec<ProgressUpdate> = Vec::new();
    let r = create_initial_baseline("/scan", "/", &ScanRoot::Missing, &config, &cancel, &mut events);
    assert!(matches!(r, Err(ScanError::NotFound)));
}

#[test]
fn empty_backlog_gives_empty_successful_baseline() {
    let root = ScanRoot::Present { entries: vec![] };
    let b = run(&root).expect("empty scan succeeds");
    assert_eq!(b.file_count, 0);
}

#[test]
fn excluded_top_level_directory_is_pruned() {
    let root = ScanRoot::Present {
        entries: vec![
            dir("dev", vec![file("null.txt", 1, Some("x"))]),
            dir("home", vec![file("z.txt", 1, Some("x"))]),
        ],
    };
    let config = BaselineConfig::default();
    let cancel = CancelToken::new();
    let mut events: Vec<ProgressUpdate> = Vec::new();
    let b = create_initial_baseline("/", "/", &root, &config, &cancel, &mut events)
        .expect("scan succeeds");
    assert_eq!(b.file_count, 1);
    assert!(b.files.get("/home/z.txt").is_some());
    assert!(b.files.get("/dev/null.txt").is_none());
}

#[test]
fn excluded_subdirectory_is_pruned_during_walk() {
    // /usr itself is in scope, but /usr/lib is excluded by the default
    // policy: the walk must prune it when it reaches it.
    let root = ScanRoot::Present {
        entries: vec![dir(
            "usr",
            vec![
                dir("lib", vec![file("log.txt", 1, Some("x"))]),
                file("keep.txt", 1, Some("x")),
            ],
        )],
    };
    let config = BaselineConfig::default();
    let cancel = CancelToken::new();
    let mut events: Vec<ProgressUpdate> = Vec::new();
    let b = create_initial_baseline("/", "/", &root, &config, &cancel, &mut events)
        .expect("scan succeeds");
    assert_eq!(b.file_count, 1);
    assert!(b.files.get("/usr/keep.txt").is_some());
    assert!(b.files.get("/usr/lib/log.txt").is_none());
}

#[test]
fn top_level_files_are_not_scanned() {
    let root = ScanRoot::Present {
        entries: vec![file("loose.txt", 1, Some("x")), dir("a", vec![file("kept.txt", 1, Some("x"))])],
    };
    let b = run(&root).expect("scan succeeds");
    assert_eq!(b.file_count, 1);
    assert!(b.files.get("/a/kept.txt").is_some());
}

#[test]
fn guaranteed_events_are_emitted_per_unit() {
    let root = sample_root();
    let config = BaselineConfig::default();
    let cancel = CancelToken::new();
    let mut events: Vec<ProgressUpdate> = Vec::new();
    create_initial_baseline("/scan", "/", &root, &config, &cancel, &mut events)
        .expect("scan succeeds");
    let started: Vec<&ProgressUpdate> = events
        .iter()
        .filter(|e| matches!(e, ProgressUpdate::WorkerStarted { .. }))
        .collect();
    let completed: Vec<&ProgressUpdate> = events
        .iter()
        .filter(|e| matches!(e, ProgressUpdate::WorkerCompleted { .. }))
        .collect();
    assert_eq!(started.len(), 2);
    assert_eq!(completed.len(), 2);
    match started[0] {
        ProgressUpdate::WorkerStarted { name } => assert_eq!(name, "/a"),
        _ => unreachable!(),
    }
    match completed[1] {
        ProgressUpdate::WorkerCompleted { name, file_count } => {
            assert_eq!(name, "/b");
            assert_eq!(*file_count, 1);
        }
        _ => unreachable!(),
    }
}

#[test]
fn unit_in_scope_filters_files_and_excluded_dirs() {
    let config = BaselineConfig::default();
    let d = dir("home", vec![]);
    let excluded = dir("dev", vec![]);
    let f = file("loose.txt", 1, None);
    assert!(unit_in_scope(&d, "/", "/", &config));
    assert!(!unit_in_scope(&excluded, "/", "/", &config));
    assert!(!unit_in_scope(&f, "/", "/", &config));
}

#[test]
fn worker_count_is_bounded_by_backlog_and_parallelism() {
    assert_eq!(plan_worker_count(8, 0), 0);
    assert_eq!(plan_worker_count(8, 3), 3);
    assert_eq!(plan_worker_count(2, 5), 2);
    assert_eq!(plan_worker_count(0, 4), 1);
    assert_eq!(plan_worker_count(4, 4), 4);
}

#[test]
fn later_units_win_logical_path_collisions() {
    // Two physical subtrees remapping to one logical path overwrite each
    // other; the scan still succeeds with a single record for the path.
    let root = ScanRoot::Present {
        entries: vec![
            dir("a", vec![file("x.txt", 5, Some("first"))]),
            dir("a", vec![file("x.txt", 5, Some("second"))]),
        ],
    };
    let b = run(&root).expect("scan succeeds");
    assert_eq!(b.file_count, 1);
    match &b.files.get("/a/x.txt").expect("tracked").track_mode {
        TrackMode::Content { content, .. } => assert_eq!(content, "second"),
        TrackMode::Existence { .. } => panic!("expected content"),
    }
}

#[test]
fn worker_step_decisions() {
    // Cancellation always wins.
    assert_eq!(worker_step(true, 5, 3, 0, 100), WorkerStep::Exit);
    // Work in the backlog is claimed.
    assert_eq!(worker_step(false, 5, 0, 0, 100), WorkerStep::Claim);
    // Empty backlog and nothing in flight: the scan is drained.
    assert_eq!(worker_step(false, 0, 0, 0, 100), WorkerStep::Exit);
    // Empty backlog with work in flight: back off and retry.
    assert_eq!(worker_step(false, 0, 2, 50, 100), WorkerStep::Backoff);
    assert_eq!(worker_step(false, 0, 2, 100, 100), WorkerStep::Backoff);
    // The liveness safeguard ends the wait.
    assert_eq!(worker_step(false, 0, 2, 101, 100), WorkerStep::Exit);
}
