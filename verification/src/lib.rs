//! File-integrity baseline library.
//!
//! The crate snapshots a directory tree's observed state (content or
//! metadata, per policy) so later snapshots can be diffed to reveal
//! unexpected changes. The core is the baseline-creation engine: a
//! cancellable scanner over an observed tree with a content-vs-metadata
//! classification policy, path remapping, progress reporting and snapshot
//! comparison.

pub mod app;
pub mod base_layout;
pub mod baseline;
pub mod classify;
pub mod clock;
pub mod compare;
pub mod config;
pub mod filemap;
pub mod hashing;
pub mod paths;
pub mod progress;
pub mod scanner;
pub mod strutil;
pub mod tab_bar;
pub mod toast;

pub use app::App;
pub use app::BaselineItem;
pub use app::Popup;
pub use app::PopupAction;
pub use app::PopupType;
pub use app::ViewMode;
pub use app::sort_baseline_items;
pub use base_layout::BaseLayout;
pub use base_layout::BaseLayoutConfig;
pub use base_layout::BaseLayoutResult;
pub use base_layout::BindingConfig;
pub use base_layout::DimmingContext;
pub use base_layout::StatusBarConfig;
pub use base_layout::TabConfig;
pub use baseline::Baseline;
pub use baseline::baseline_filename;
pub use classify::FileEntry;
pub use classify::FileMetadata;
pub use classify::TrackMode;
pub use classify::scan_file;
pub use compare::ComparisonResults;
pub use compare::compare;
pub use config::BaselineConfig;
pub use config::Config;
pub use filemap::FileMap;
pub use progress::ProgressUpdate;
pub use scanner::CancelToken;
pub use scanner::ScanError;
pub use scanner::ScanRoot;
pub use scanner::TreeNode;
pub use scanner::WorkerStep;
pub use scanner::worker_step;
pub use scanner::create_initial_baseline;
pub use tab_bar::TabBar;
pub use tab_bar::TabBarAlignment;
pub use tab_bar::TabBarItem;
pub use tab_bar::TabBarPosition;
pub use tab_bar::TabBarStyle;
pub use toast::Toast;
pub use toast::ToastType;
