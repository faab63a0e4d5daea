//! Application configuration and the baseline scanning policy.

use vstd::prelude::*;

verus! {

/// Top-level application configuration.
#[derive(Debug, Clone)]
pub struct Config {
    pub title: String,
    pub baseline: BaselineConfig,
}

/// Policy describing which files get content vs. metadata-only tracking.
///
/// `exclude_directories` are pruned from the scan entirely;
/// `existence_only_directories` and `existence_only_extensions` force
/// metadata-only tracking; files larger than `content_size_limit` bytes are
/// also tracked by metadata only.
#[derive(Debug, Clone)]
pub struct BaselineConfig {
    pub exclude_directories: Vec<String>,
    pub existence_only_directories: Vec<String>,
    pub existence_only_extensions: Vec<String>,
    pub content_size_limit: u64,
    pub exclusion_log: String,
}

/// The views of a sequence of strings, as sequences of characters.
pub open spec fn seq_views(v: Seq<String>) -> Seq<Seq<char>> {
    v.map_values(|s: String| s@)
}

/// Mathematical model of a [`BaselineConfig`].
pub struct PolicyView {
    pub exclude_directories: Seq<Seq<char>>,
    pub existence_only_directories: Seq<Seq<char>>,
    pub existence_only_extensions: Seq<Seq<char>>,
    pub content_size_limit: u64,
    pub exclusion_log: Seq<char>,
}

impl View for BaselineConfig {
    type V = PolicyView;

    open spec fn view(&self) -> PolicyView {
        PolicyView {
            exclude_directories: seq_views(self.exclude_directories@),
            existence_only_directories: seq_views(self.existence_only_directories@),
            existence_only_extensions: seq_views(self.existence_only_extensions@),
            content_size_limit: self.content_size_limit,
            exclusion_log: self.exclusion_log@,
        }
    }
}

/// Directory prefixes pruned from a scan by default: virtual filesystems,
/// runtime data, package-managed trees, mount points.
pub open spec fn default_exclude_dirs() -> Seq<Seq<char>> {
    seq![
        "/dev"@,
        "/proc"@,
        "/sys"@,
        "/run"@,
        "/tmp"@,
        "/srv"@,
        "/var"@,
        "/usr/lib"@,
        "/usr/include"@,
        "/usr/src"@,
        "/usr/share"@,
        "/usr/libexec"@,
        "/usr/bin"@,
        "/usr/sbin"@,
        "/usr/games"@,
        "/var/lib/dpkg"@,
        "/var/lib/apt"@,
        "/var/cache/apt"@,
        "/var/log/apt"@,
        "/.cursor-server"@,
        "/bin"@,
        "/lib"@,
        "/sbin"@,
        "/.local"@,
        "/root/.cache"@,
        "/root/.cargo"@,
        "/root/.cursor"@,
        "/root/.cursor-server"@,
        "/root/.oh-my-zsh"@,
        "/root/.rustup"@,
        "/root/.ssh"@,
        "/root/.local"@,
        "/media"@,
        "/mnt"@,
    ]
}

/// Directory prefixes tracked by existence only by default.
pub open spec fn default_existence_dirs() -> Seq<Seq<char>> {
    seq!["/opt"@, "/usr/local/bin"@, "/usr/local/sbin"@, "/usr/local/lib"@]
}

/// File extensions tracked by existence only by default; `.so.*` is the
/// wildcard for versioned shared libraries.
pub open spec fn default_existence_exts() -> Seq<Seq<char>> {
    seq![".so"@, ".a"@, ".bin"@, ".pyc"@, ".o"@, ".exe"@, ".dll"@, ".dylib"@, ".so.*"@]
}

/// Default size threshold, in bytes, above which file contents are not
/// recorded.
pub fn default_content_size_limit() -> (r: u64)
    ensures
        r == 102400,
{
    102400
}

/// Default location of the log of files skipped for size.
pub fn default_exclusion_log() -> (r: String)
    ensures
        r@ == "data/baselines/size-exclusions.log"@,
{
    "data/baselines/size-exclusions.log".to_owned()
}

impl Default for BaselineConfig {
    fn default() -> (r: Self)
        ensures
            seq_views(r.exclude_directories@) == default_exclude_dirs(),
            seq_views(r.existence_only_directories@) == default_existence_dirs(),
            seq_views(r.existence_only_extensions@) == default_existence_exts(),
            r.content_size_limit == 102400,
            r.exclusion_log@ == "data/baselines/size-exclusions.log"@,
    {
        let r = BaselineConfig {
            exclude_directories: vec![
                "/dev".to_owned(),
                "/proc".to_owned(),
                "/sys".to_owned(),
                "/run".to_owned(),
                "/tmp".to_owned(),
                "/srv".to_owned(),
                "/var".to_owned(),
                "/usr/lib".to_owned(),
                "/usr/include".to_owned(),
                "/usr/src".to_owned(),
                "/usr/share".to_owned(),
                "/usr/libexec".to_owned(),
                "/usr/bin".to_owned(),
                "/usr/sbin".to_owned(),
                "/usr/games".to_owned(),
                "/var/lib/dpkg".to_owned(),
                "/var/lib/apt".to_owned(),
                "/var/cache/apt".to_owned(),
                "/var/log/apt".to_owned(),
                "/.cursor-server".to_owned(),
                "/bin".to_owned(),
                "/lib".to_owned(),
                "/sbin".to_owned(),
                "/.local".to_owned(),
                "/root/.cache".to_owned(),
                "/root/.cargo".to_owned(),
                "/root/.cursor".to_owned(),
                "/root/.cursor-server".to_owned(),
                "/root/.oh-my-zsh".to_owned(),
                "/root/.rustup".to_owned(),
                "/root/.ssh".to_owned(),
                "/root/.local".to_owned(),
                "/media".to_owned(),
                "/mnt".to_owned(),
            ],
            existence_only_directories: vec![
                "/opt".to_owned(),
                "/usr/local/bin".to_owned(),
                "/usr/local/sbin".to_owned(),
                "/usr/local/lib".to_owned(),
            ],
            existence_only_extensions: vec![
                ".so".to_owned(),
                ".a".to_owned(),
                ".bin".to_owned(),
                ".pyc".to_owned(),
                ".o".to_owned(),
                ".exe".to_owned(),
                ".dll".to_owned(),
                ".dylib".to_owned(),
                ".so.*".to_owned(),
            ],
            content_size_limit: default_content_size_limit(),
            exclusion_log: default_exclusion_log(),
        };
        proof {
            assert(seq_views(r.exclude_directories@) =~= default_exclude_dirs());
            assert(seq_views(r.existence_only_directories@) =~= default_existence_dirs());
            assert(seq_views(r.existence_only_extensions@) =~= default_existence_exts());
        }
        r
    }
}

impl Default for Config {
    fn default() -> (r: Self)
        ensures
            r.title@ == "CHAMON - File change Monitor"@,
            seq_views(r.baseline.exclude_directories@) == default_exclude_dirs(),
            seq_views(r.baseline.existence_only_directories@) == default_existence_dirs(),
            seq_views(r.baseline.existence_only_extensions@) == default_existence_exts(),
            r.baseline.content_size_limit == 102400,
    {
        Config { title: "CHAMON - File change Monitor".to_owned(), baseline: BaselineConfig::default() }
    }
}

} // verus!
