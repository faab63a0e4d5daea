//! Typed progress events streamed from a running scan, and the throttle
//! that bounds how often lossy per-file progress is emitted.

use vstd::prelude::*;

verus! {

/// Progress update messages sent from a running scan to its caller.
/// `WorkerProgress` is lossy and may be dropped; the other events are
/// guaranteed.
#[derive(Debug, Clone)]
pub enum ProgressUpdate {
    /// A worker claimed a top-level directory.
    WorkerStarted { name: String },
    /// Throttled per-file progress of one worker.
    WorkerProgress { name: String, file_count: usize, current_path: String },
    /// A worker finished a top-level directory.
    WorkerCompleted { name: String, file_count: usize },
    /// Total files recorded so far; monotonically increasing.
    FilesProcessed { count: usize },
    /// Package database progress.
    PackageProgress { processed: usize, total: usize },
    /// The scan moved to another phase.
    PhaseChanged { phase: String },
    /// The whole operation finished.
    BaselineCompleted { success: bool, message: String },
}

/// Mathematical model of a [`ProgressUpdate`].
pub enum ProgressUpdateView {
    WorkerStarted { name: Seq<char> },
    WorkerProgress { name: Seq<char>, file_count: usize, current_path: Seq<char> },
    WorkerCompleted { name: Seq<char>, file_count: usize },
    FilesProcessed { count: usize },
    PackageProgress { processed: usize, total: usize },
    PhaseChanged { phase: Seq<char> },
    BaselineCompleted { success: bool, message: Seq<char> },
}

impl View for ProgressUpdate {
    type V = ProgressUpdateView;

    open spec fn view(&self) -> ProgressUpdateView {
        match self {
            ProgressUpdate::WorkerStarted { name } => ProgressUpdateView::WorkerStarted {
                name: name@,
            },
            ProgressUpdate::WorkerProgress { name, file_count, current_path } => {
                ProgressUpdateView::WorkerProgress {
                    name: name@,
                    file_count: *file_count,
                    current_path: current_path@,
                }
            },
            ProgressUpdate::WorkerCompleted { name, file_count } => {
                ProgressUpdateView::WorkerCompleted { name: name@, file_count: *file_count }
            },
            ProgressUpdate::FilesProcessed { count } => ProgressUpdateView::FilesProcessed {
                count: *count,
            },
            ProgressUpdate::PackageProgress { processed, total } => {
                ProgressUpdateView::PackageProgress { processed: *processed, total: *total }
            },
            ProgressUpdate::PhaseChanged { phase } => ProgressUpdateView::PhaseChanged {
                phase: phase@,
            },
            ProgressUpdate::BaselineCompleted { success, message } => {
                ProgressUpdateView::BaselineCompleted { success: *success, message: message@ }
            },
        }
    }
}

/// The views of a sequence of progress updates.
pub open spec fn event_views(s: Seq<ProgressUpdate>) -> Seq<ProgressUpdateView> {
    s.map_values(|u: ProgressUpdate| u@)
}

/// Whether a per-file progress event is due: at least a hundred files
/// since the last emission, or at least fifty milliseconds elapsed,
/// whichever comes first.
pub open spec fn spec_should_emit_progress(count: usize, last_count: usize, elapsed_ms: u64) -> bool {
    ||| (if count >= last_count {
        count - last_count
    } else {
        0
    }) >= 100
    ||| elapsed_ms >= 50
}

/// Decide whether a per-file progress event is due; see
/// [`spec_should_emit_progress`].
pub fn should_emit_progress(count: usize, last_count: usize, elapsed_ms: u64) -> (r: bool)
    ensures
        r == spec_should_emit_progress(count, last_count, elapsed_ms),
{
    let diff: usize = if count >= last_count {
        count - last_count
    } else {
        0
    };
    diff >= 100 || elapsed_ms >= 50
}

} // verus!
