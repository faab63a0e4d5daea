use chamon::classify::ext_suffix;
use sha2::Digest;
use chamon::classify::scan_file;
use chamon::classify::FileMetadata;
use chamon::classify::TrackMode;
use chamon::config::BaselineConfig;

const SHA256_HELLO: &str = "2cf24dba5fb0a30e26e83b2ac5b9e29e1b161e5c1fa7425e73043362938b9824";

fn meta(size: u64, permissions: u32) -> FileMetadata {
    FileMetadata { size, modified: 1700000000, permissions, owner: 0, group: 0 }
}

#[test]
fn shared_library_is_existence_regardless_of_size_and_content() {
    let config = BaselineConfig::default();
    let text = "hello".to_string();
    for size in [0u64, 5, 1000, 10_000_000] {
        let e = scan_file("/scan/b/lib.so", "/scan", "/", &meta(size, 0o644), Some(&text), &config);
        assert_eq!(e.path, "/b/lib.so");
        assert!(matches!(e.track_mode, TrackMode::Existence { .. }));
    }
}

#[test]
fn small_text_file_is_content_with_exact_hash() {
    let config = BaselineConfig::default();
    let text = "hello".to_string();
    let e = scan_file("/scan/a/x.txt", "/scan", "/", &meta(5, 0o644), Some(&text), &config);
    assert_eq!(e.path, "/a/x.txt");
    match e.track_mode {
        TrackMode::Content { checksum, content, size, modified, permissions, owner, group } => {
            assert_eq!(checksum, SHA256_HELLO);
            assert_eq!(content, "hello");
            assert_eq!(size, 5);
            assert_eq!(modified, 1700000000);
            assert_eq!(permissions, 0o644);
            assert_eq!(owner, 0);
            assert_eq!(group, 0);
        }
        TrackMode::Existence { .. } => panic!("expected content tracking"),
    }
}

#[test]
fn hundred_byte_text_under_default_limit_is_content() {
    let config = BaselineConfig::default();
    let text = "x".repeat(100);
    let e = scan_file("/scan/a/notes.txt", "/scan", "/", &meta(100, 0o644), Some(&text), &config);
    match e.track_mode {
        TrackMode::Content { checksum, .. } => {
            // The checksum is the hash of exactly those hundred bytes.
            let digest = sha2::Sha256::digest(text.as_bytes());
            let mut expected = String::new();
            for b in digest.iter() {
                expected.push_str(&format!("{:02x}", b));
            }
            assert_eq!(checksum, expected);
        }
        TrackMode::Existence { .. } => panic!("expected content tracking"),
    }
}

#[test]
fn any_execute_bit_forces_existence() {
    let config = BaselineConfig::default();
    let text = "hello".to_string();
    for perms in [0o755u32, 0o744, 0o100, 0o010, 0o001] {
        let e = scan_file("/scan/a/run.txt", "/scan", "/", &meta(5, perms), Some(&text), &config);
        assert!(matches!(e.track_mode, TrackMode::Existence { .. }));
    }
}

#[test]
fn size_above_limit_forces_existence() {
    let config = BaselineConfig::default();
    let text = "hello".to_string();
    let e = scan_file("/scan/a/big.txt", "/scan", "/", &meta(102401, 0o644), Some(&text), &config);
    assert!(matches!(e.track_mode, TrackMode::Existence { .. }));
    let e2 = scan_file("/scan/a/big.txt", "/scan", "/", &meta(102400, 0o644), Some(&text), &config);
    assert!(matches!(e2.track_mode, TrackMode::Content { .. }));
}

#[test]
fn binary_file_is_existence() {
    let config = BaselineConfig::default();
    let e = scan_file("/scan/a/blob.dat", "/scan", "/", &meta(5, 0o644), None, &config);
    assert!(matches!(e.track_mode, TrackMode::Existence { .. }));
}

#[test]
fn existence_only_directory_forces_existence() {
    let config = BaselineConfig::default();
    let text = "hello".to_string();
    let e = scan_file("/scan/opt/tool.txt", "/scan", "/", &meta(5, 0o644), Some(&text), &config);
    assert_eq!(e.path, "/opt/tool.txt");
    assert!(matches!(e.track_mode, TrackMode::Existence { .. }));
}

#[test]
fn versioned_shared_library_wildcard_matches() {
    let config = BaselineConfig::default();
    let text = "hello".to_string();
    let e = scan_file("/scan/x/libc.so.6", "/scan", "/", &meta(5, 0o644), Some(&text), &config);
    assert!(matches!(e.track_mode, TrackMode::Existence { .. }));
}

#[test]
fn extensionless_small_text_is_content() {
    let config = BaselineConfig::default();
    let text = "hello".to_string();
    let e = scan_file("/scan/a/README", "/scan", "/", &meta(5, 0o644), Some(&text), &config);
    assert!(matches!(e.track_mode, TrackMode::Content { .. }));
}

#[test]
fn ext_suffix_examples() {
    assert_eq!(ext_suffix("/a/b/foo.tar.gz"), Some(".gz".to_string()));
    assert_eq!(ext_suffix("/a/b/lib.so"), Some(".so".to_string()));
    assert_eq!(ext_suffix("/a/b/.bashrc"), None);
    assert_eq!(ext_suffix("/a/b/README"), None);
    assert_eq!(ext_suffix("noslash.txt"), Some(".txt".to_string()));
}
