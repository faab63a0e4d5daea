use chamon::app::str_le;
use chamon::base_layout::BaseLayout;
use chamon::base_layout::BaseLayoutConfig;
use chamon::base_layout::DimmingContext;
use chamon::base_layout::StatusBarConfig;
use chamon::baseline::baseline_filename;
use chamon::baseline::Baseline;
use chamon::classify::FileEntry;
use chamon::classify::TrackMode;
use chamon::config::default_content_size_limit;
use chamon::config::BaselineConfig;
use chamon::config::Config;
use chamon::filemap::FileMap;
use chamon::hashing::sha256_hex;
use chamon::hashing::to_hex;
use chamon::progress::should_emit_progress;
use chamon::tab_bar::Rect;
use chamon::tab_bar::TabBar;
use chamon::tab_bar::TabBarAlignment;
use chamon::tab_bar::TabBarItem;
use chamon::tab_bar::TabBarPosition;
use chamon::tab_bar::TabBarStyle;
use chamon::toast::Toast;
use chamon::toast::ToastType;

#[test]
fn sha256_of_hello_matches_known_digest() {
    assert_eq!(
        sha256_hex(b"hello"),
        "2cf24dba5fb0a30e26e83b2ac5b9e29e1b161e5c1fa7425e73043362938b9824"
    );
    assert_eq!(
        sha256_hex(b""),
        "e3b0c44298fc1c149afbf4c8996fb92427ae41e4649b934ca495991b7852b855"
    );
}

#[test]
fn hex_rendering_pads_every_byte() {
    assert_eq!(to_hex(&vec![0x00, 0xff, 0x0a]), "00ff0a");
    assert_eq!(to_hex(&vec![]), "");
}

#[test]
fn baseline_filenames_follow_the_convention() {
    assert_eq!(baseline_filename(false, "20240101-120000"), "baseline-initial.json");
    assert_eq!(baseline_filename(true, "20240101-120000"), "baseline-20240101-120000.json");
}

#[test]
fn fresh_baseline_is_empty_and_not_a_delta() {
    let b = Baseline::new("/scan".to_string(), "/".to_string());
    assert_eq!(b.scan_path, "/scan");
    assert_eq!(b.remap_to, "/");
    assert_eq!(b.file_count, 0);
    assert!(!b.is_delta);
}

#[test]
fn file_map_insert_get_and_merge() {
    fn entry(path: &str) -> FileEntry {
        FileEntry {
            path: path.to_string(),
            track_mode: TrackMode::Existence {
                size: 1,
                modified: 2,
                permissions: 3,
                owner: 4,
                group: 5,
            },
        }
    }
    let mut m = FileMap::new();
    assert_eq!(m.len(), 0);
    m.insert("/a".to_string(), entry("/a"));
    m.insert("/b".to_string(), entry("/b"));
    m.insert("/a".to_string(), entry("/a"));
    assert_eq!(m.len(), 2);
    assert!(m.get("/a").is_some());
    assert!(m.get("/c").is_none());
    let mut other = FileMap::new();
    other.insert("/b".to_string(), entry("/b"));
    other.insert("/c".to_string(), entry("/c"));
    m.merge_from(other);
    assert_eq!(m.len(), 3);
    assert!(m.get("/c").is_some());
}

#[test]
fn progress_throttle_fires_on_count_or_time() {
    assert!(should_emit_progress(150, 0, 0));
    assert!(should_emit_progress(100, 0, 0));
    assert!(!should_emit_progress(99, 0, 0));
    assert!(!should_emit_progress(50, 0, 49));
    assert!(should_emit_progress(50, 0, 50));
    // A counter that went backwards counts as no new files.
    assert!(!should_emit_progress(0, 1000, 0));
}

#[test]
fn default_config_carries_the_policy() {
    let c = Config::default();
    assert_eq!(c.title, "CHAMON - File change Monitor");
    let b = BaselineConfig::default();
    assert_eq!(b.content_size_limit, default_content_size_limit());
    assert_eq!(b.content_size_limit, 102400);
    assert!(b.exclude_directories.iter().any(|d| d == "/dev"));
    assert!(b.exclude_directories.iter().any(|d| d == "/proc"));
    assert!(b.existence_only_directories.iter().any(|d| d == "/opt"));
    assert!(b.existence_only_extensions.iter().any(|e| e == ".so"));
    assert!(b.existence_only_extensions.iter().any(|e| e == ".so.*"));
    assert_eq!(b.exclusion_log, "data/baselines/size-exclusions.log");
}

#[test]
fn toast_constructors_set_flavour_and_message() {
    let t = Toast::success("saved".to_string());
    assert_eq!(t.message, "saved");
    assert_eq!(t.toast_type, ToastType::Success);
    let t = Toast::error("broken".to_string());
    assert_eq!(t.toast_type, ToastType::Error);
    let t = Toast::info("note".to_string());
    assert_eq!(t.toast_type, ToastType::Info);
    let t = Toast::new("raw".to_string(), ToastType::Info);
    assert_eq!(t.message, "raw");
}

#[test]
fn status_bar_default_texts() {
    let s = StatusBarConfig::default();
    assert_eq!(s.default_text, "Status: Ready | Press PgUp/PgDn to switch tabs | 'q' to quit");
    assert!(s.modal_text.is_some());
}

#[test]
fn base_layout_keeps_its_inputs() {
    let config = BaseLayoutConfig {
        title: "T".to_string(),
        tabs: vec![],
        global_bindings: vec![],
        status_bar: StatusBarConfig::default(),
    };
    let dimming = DimmingContext::new(true);
    assert!(dimming.modal_visible);
    let l = BaseLayout::new(&config, Some("tab-id"), &dimming);
    assert_eq!(l.config.title, "T");
    assert_eq!(l.active_tab_id, Some("tab-id"));
    assert!(l.dimming.modal_visible);
}

#[test]
fn version_strings_order_lexicographically() {
    assert!(str_le("20240101-100000", "20240201-100000"));
    assert!(!str_le("20240301-100000", "20240201-100000"));
    assert!(str_le("abc", "abc"));
    assert!(str_le("ab", "abc"));
    assert!(!str_le("abc", "ab"));
}

#[test]
fn tab_bar_width_counts_brackets_and_separators() {
    let items = vec![
        TabBarItem { name: "DASHBOARD".to_string(), active: true },
        TabBarItem { name: "CHANGES".to_string(), active: false },
        TabBarItem { name: "BASELINES".to_string(), active: false },
    ];
    let bar = TabBar::new(items.clone(), TabBarStyle::Tab, TabBarAlignment::Center);
    // 3 leading + 2 trailing, a bracketed active tab, and two separators.
    assert_eq!(bar.estimate_width(), 40);
    let plain = TabBar::new(items, TabBarStyle::Text, TabBarAlignment::Left);
    assert_eq!(plain.estimate_width(), 36);
    let placed = plain.with_position(TabBarPosition::TopOf(Rect { x: 1, y: 2, width: 50, height: 10 }));
    assert_eq!(placed.position, TabBarPosition::TopOf(Rect { x: 1, y: 2, width: 50, height: 10 }));
}

#[test]
fn tab_bar_area_attaches_to_borders() {
    let items = vec![
        TabBarItem { name: "DASHBOARD".to_string(), active: true },
        TabBarItem { name: "CHANGES".to_string(), active: false },
        TabBarItem { name: "BASELINES".to_string(), active: false },
    ];
    // The bar is 40 cells wide; centred on an 80-cell top border it
    // starts at column 20.
    let top = TabBar::new(items.clone(), TabBarStyle::Tab, TabBarAlignment::Center)
        .with_position(TabBarPosition::TopOf(Rect { x: 0, y: 5, width: 80, height: 10 }));
    assert_eq!(top.calculate_area(), Rect { x: 20, y: 5, width: 40, height: 1 });
    let left = TabBar::new(items.clone(), TabBarStyle::Tab, TabBarAlignment::Left)
        .with_position(TabBarPosition::TopOf(Rect { x: 0, y: 5, width: 80, height: 10 }));
    assert_eq!(left.calculate_area(), Rect { x: 1, y: 5, width: 40, height: 1 });
    // A narrow box clips the bar.
    let narrow = TabBar::new(items.clone(), TabBarStyle::Tab, TabBarAlignment::Left)
        .with_position(TabBarPosition::TopOf(Rect { x: 0, y: 0, width: 30, height: 3 }));
    assert_eq!(narrow.calculate_area().width, 29);
    // Direct coordinates are taken as given.
    let coords = TabBar::new(items, TabBarStyle::Text, TabBarAlignment::Left)
        .with_position(TabBarPosition::Coords { x1: 3, x2: 10, y: 2 });
    assert_eq!(coords.calculate_area(), Rect { x: 3, y: 2, width: 7, height: 1 });
}
