use chamon::config::BaselineConfig;
use chamon::paths::normalize_remap_to;
use chamon::paths::normalize_scan_path;
use chamon::paths::remap_path;
use chamon::paths::should_exclude;
use chamon::paths::trim_trailing_slashes;
use chamon::strutil::str_contains;
use chamon::strutil::str_ends_with;
use chamon::strutil::str_eq;
use chamon::strutil::str_starts_with;

#[test]
fn remap_strips_scan_prefix() {
    assert_eq!(remap_path("/scan/a/b", "/scan", "/x"), "/x/a/b");
}

#[test]
fn remap_identity_when_roots_equal() {
    assert_eq!(remap_path("/scan", "/scan", "/scan"), "/scan");
}

#[test]
fn remap_scan_root_to_target() {
    assert_eq!(remap_path("/scan", "/scan", "/"), "/");
}

#[test]
fn remap_to_filesystem_root() {
    assert_eq!(remap_path("/scan/a/x.txt", "/scan", "/"), "/a/x.txt");
}

#[test]
fn remap_passes_unprefixed_paths_through() {
    assert_eq!(remap_path("/other/q", "/scan", "/x"), "/other/q");
}

#[test]
fn remap_exact_scan_path_maps_to_target() {
    assert_eq!(remap_path("/media/pi/rootfs/etc/config.txt", "/media/pi/rootfs", "/"), "/etc/config.txt");
}

#[test]
fn normalize_scan_path_trims_trailing_slashes() {
    assert_eq!(normalize_scan_path("/scan///"), "/scan");
    assert_eq!(normalize_scan_path("/scan"), "/scan");
    assert_eq!(normalize_scan_path("/"), "/");
}

#[test]
fn normalize_remap_to_defaults_to_scan_root() {
    assert_eq!(normalize_remap_to("", "/scan"), "/scan");
    assert_eq!(normalize_remap_to("/", "/scan"), "/");
    assert_eq!(normalize_remap_to("/x//", "/scan"), "/x");
}

#[test]
fn trim_trailing_slashes_examples() {
    assert_eq!(trim_trailing_slashes("/a/b//"), "/a/b");
    assert_eq!(trim_trailing_slashes("abc"), "abc");
    assert_eq!(trim_trailing_slashes("///"), "");
}

#[test]
fn default_policy_excludes_virtual_filesystems() {
    let config = BaselineConfig::default();
    assert!(should_exclude("/dev", "/", "/", &config));
    assert!(should_exclude("/proc/12", "/", "/", &config));
    assert!(!should_exclude("/home/user", "/", "/", &config));
}

#[test]
fn exclusion_checks_the_remapped_path() {
    let config = BaselineConfig::default();
    // /scan/dev remaps to /dev, which is excluded.
    assert!(should_exclude("/scan/dev", "/scan", "/", &config));
    // With identity remapping /scan/dev stays /scan/dev: not excluded.
    assert!(!should_exclude("/scan/dev", "/scan", "/scan", &config));
}

#[test]
fn string_helpers() {
    assert!(str_eq("abc", "abc"));
    assert!(!str_eq("abc", "abd"));
    assert!(str_starts_with("/scan/a", "/scan"));
    assert!(!str_starts_with("/sc", "/scan"));
    assert!(str_ends_with("lib.so", ".so"));
    assert!(!str_ends_with("lib.so.1", ".so"));
    assert!(str_contains("libc.so.6", ".so."));
    assert!(!str_contains("libc.txt", ".so."));
    assert!(str_contains("anything", ""));
}
