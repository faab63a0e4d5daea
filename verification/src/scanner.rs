//! The baseline-creation engine: a cancellable walk over an observed
//! directory tree, classifying and recording every regular file keyed by
//! its remapped path.
//!
//! The tree is supplied as plain values: the caller enumerates the
//! filesystem (or any other source) into [`TreeNode`]s, and every decision
//! made over them — exclusion, classification, keying, merging,
//! cancellation — is verified here.

use vstd::prelude::*;
use std::sync::Arc;
use std::sync::atomic::AtomicBool;
use std::sync::atomic::Ordering;
use crate::baseline::Baseline;
use crate::classify::FileEntryView;
use crate::classify::FileMetadata;
use crate::classify::scan_file;
use crate::classify::spec_track_mode;
use crate::config::BaselineConfig;
use crate::config::PolicyView;
use crate::filemap::FileMap;
use crate::paths::normalize_remap_to;
use crate::paths::normalize_scan_path;
use crate::paths::root_seq;
use crate::paths::should_exclude;
use crate::paths::spec_normalize_remap_to;
use crate::paths::spec_normalize_scan_path;
use crate::paths::spec_remap;
use crate::paths::spec_should_exclude;
use crate::progress::event_views;
use crate::progress::ProgressUpdate;
use crate::progress::ProgressUpdateView;

verus! {

/// A shared cancellation flag, observed cooperatively by a running scan.
/// What a read returns depends on the other holders of the flag, so
/// nothing is promised of it.
#[derive(Clone, Debug)]
pub struct CancelToken {
    flag: Arc<AtomicBool>,
}

impl CancelToken {
    /// A fresh, untripped flag.
    pub fn new() -> CancelToken {
        CancelToken { flag: Arc::new(AtomicBool::new(false)) }
    }

    /// Trip the flag: every holder's later reads see the trip, once
    /// propagated.
    pub fn cancel(&self) {
        self.flag.store(true, Ordering::Relaxed);
    }

    /// Read the flag.
    pub fn is_cancelled(&self) -> bool {
        self.flag.load(Ordering::Relaxed)
    }
}

/// One observed node of the scanned tree: a regular file with its
/// metadata and decoded text (nothing when the bytes are not valid text),
/// a directory with its entries, or an entry that was skipped — a
/// symbolic link, or one whose metadata or listing could not be read.
#[derive(Debug)]
pub enum TreeNode {
    File { name: String, meta: FileMetadata, text: Option<String> },
    Dir { name: String, entries: Vec<TreeNode> },
    Skipped { name: String },
}

/// The physical path of an entry named `name` inside the directory at
/// `parent`.
pub open spec fn spec_join(parent: Seq<char>, name: Seq<char>) -> Seq<char> {
    if parent.len() > 0 && parent[parent.len() - 1] == '/' {
        parent + name
    } else {
        parent + root_seq() + name
    }
}

/// Join a directory path and an entry name; see [`spec_join`].
pub fn join_path(parent: &str, name: &str) -> (r: String)
    ensures
        r@ == spec_join(parent@, name@),
{
    let plen = parent.unicode_len();
    let mut out = parent.to_owned();
    if plen > 0 && parent.get_char(plen - 1) == '/' {
        out.append(name);
    } else {
        proof {
            reveal_strlit("/");
            assert("/"@ =~= root_seq());
        }
        out.append("/");
        out.append(name);
    }
    out
}

/// The mapping from logical paths to records that scanning one node under
/// the directory at `parent` produces: a file is recorded under its
/// remapped path; an excluded directory contributes nothing; any other
/// directory contributes its entries' records, later entries winning on a
/// logical-path collision; a skipped entry contributes nothing.
pub open spec fn spec_walk_node(
    n: TreeNode,
    parent: Seq<char>,
    scan: Seq<char>,
    remap: Seq<char>,
    cfg: PolicyView,
) -> Map<Seq<char>, FileEntryView>
    decreases n,
{
    match n {
        TreeNode::File { name, meta, text } => {
            let phys = spec_join(parent, name@);
            let logical = spec_remap(phys, scan, remap);
            Map::empty().insert(
                logical,
                FileEntryView {
                    path: logical,
                    track_mode: spec_track_mode(
                        meta,
                        phys,
                        logical,
                        match text {
                            Some(t) => Some(t@),
                            None => None,
                        },
                        cfg,
                    ),
                },
            )
        },
        TreeNode::Dir { name, entries } => {
            let phys = spec_join(parent, name@);
            if spec_should_exclude(phys, scan, remap, cfg.exclude_directories) {
                Map::empty()
            } else {
                spec_walk_entries(entries@, phys, scan, remap, cfg)
            }
        },
        TreeNode::Skipped { .. } => Map::empty(),
    }
}

/// The records that scanning a sequence of sibling nodes produces, in
/// order; see [`spec_walk_node`].
pub open spec fn spec_walk_entries(
    s: Seq<TreeNode>,
    parent: Seq<char>,
    scan: Seq<char>,
    remap: Seq<char>,
    cfg: PolicyView,
) -> Map<Seq<char>, FileEntryView>
    decreases s,
{
    if s.len() == 0 {
        Map::empty()
    } else {
        spec_walk_entries(s.drop_last(), parent, scan, remap, cfg).union_prefer_right(
            spec_walk_node(s.last(), parent, scan, remap, cfg),
        )
    }
}

/// Walk one node, recording every regular file under it into `results`.
/// Cancellation is polled at every entry; on a trip the walk aborts with
/// `false` and the caller discards `results`. An untripped walk extends
/// `results` with exactly the node's records.
pub fn walk_node(
    node: &TreeNode,
    parent: &str,
    scan_path: &str,
    remap_to: &str,
    config: &BaselineConfig,
    cancel: &CancelToken,
    results: &mut FileMap,
) -> (ok: bool)
    requires
        old(results).wf(),
    ensures
        final(results).wf(),
        ok ==> final(results)@ == old(results)@.union_prefer_right(
            spec_walk_node(*node, parent@, scan_path@, remap_to@, config@),
        ),
    decreases *node,
{
    if cancel.is_cancelled() {
        return false;
    }
    match node {
        TreeNode::File { name, meta, text } => {
            let phys = join_path(parent, name.as_str());
            let entry = scan_file(phys.as_str(), scan_path, remap_to, meta, text.as_ref(), config);
            let key = entry.path.clone();
            proof {
                let m = spec_walk_node(*node, parent@, scan_path@, remap_to@, config@);
                assert(old(results)@.insert(key@, entry@) =~= old(results)@.union_prefer_right(m));
            }
            results.insert(key, entry);
            true
        },
        TreeNode::Dir { name, entries } => {
            let phys = join_path(parent, name.as_str());
            if should_exclude(phys.as_str(), scan_path, remap_to, config) {
                proof {
                    assert(old(results)@.union_prefer_right(
                        Map::<Seq<char>, FileEntryView>::empty(),
                    ) =~= old(results)@);
                }
                true
            } else {
                walk_entries(entries, phys.as_str(), scan_path, remap_to, config, cancel, results)
            }
        },
        TreeNode::Skipped { .. } => {
            proof {
                assert(old(results)@.union_prefer_right(Map::<Seq<char>, FileEntryView>::empty())
                    =~= old(results)@);
            }
            true
        },
    }
}

/// Walk sibling nodes in order; see [`walk_node`].
pub fn walk_entries(
    entries: &Vec<TreeNode>,
    parent: &str,
    scan_path: &str,
    remap_to: &str,
    config: &BaselineConfig,
    cancel: &CancelToken,
    results: &mut FileMap,
) -> (ok: bool)
    requires
        old(results).wf(),
    ensures
        final(results).wf(),
        ok ==> final(results)@ == old(results)@.union_prefer_right(
            spec_walk_entries(entries@, parent@, scan_path@, remap_to@, config@),
        ),
    decreases entries@,
{
    let n = entries.len();
    let mut i: usize = 0;
    while i < n
        invariant
            n == entries@.len(),
            results.wf(),
            i <= n,
            results@ == old(results)@.union_prefer_right(
                spec_walk_entries(
                    entries@.subrange(0, i as int),
                    parent@,
                    scan_path@,
                    remap_to@,
                    config@,
                ),
            ),
        decreases n - i,
    {
        let ok = walk_node(&entries[i], parent, scan_path, remap_to, config, cancel, results);
        if !ok {
            return false;
        }
        proof {
            let sub1 = entries@.subrange(0, i + 1);
            assert(sub1.drop_last() =~= entries@.subrange(0, i as int));
            assert(sub1.last() == entries@[i as int]);
            lemma_union_assoc(
                old(results)@,
                spec_walk_entries(
                    entries@.subrange(0, i as int),
                    parent@,
                    scan_path@,
                    remap_to@,
                    config@,
                ),
                spec_walk_node(entries@[i as int], parent@, scan_path@, remap_to@, config@),
            );
        }
        i += 1;
    }
    proof {
        assert(entries@.subrange(0, n as int) =~= entries@);
    }
    true
}

/// Union of record maps is associative.
pub proof fn lemma_union_assoc(
    a: Map<Seq<char>, FileEntryView>,
    b: Map<Seq<char>, FileEntryView>,
    c: Map<Seq<char>, FileEntryView>,
)
    ensures
        a.union_prefer_right(b).union_prefer_right(c) == a.union_prefer_right(
            b.union_prefer_right(c),
        ),
{
    assert(a.union_prefer_right(b).union_prefer_right(c) =~= a.union_prefer_right(
        b.union_prefer_right(c),
    ));
}

/// Why a whole scan failed.
#[derive(Debug, Clone, Copy, PartialEq, Eq, Structural)]
pub enum ScanError {
    /// The scan root does not exist, or a snapshot file is missing.
    NotFound,
    /// A persisted snapshot could not be decoded.
    ParseError,
    /// An unrecoverable input or output fault.
    IoError,
    /// The cancellation flag tripped; nothing is persisted.
    Cancelled,
    /// An initial baseline already exists.
    AlreadyExists,
}

/// The observed scan root: missing, or present with its immediate
/// entries.
#[derive(Debug)]
pub enum ScanRoot {
    Missing,
    Present { entries: Vec<TreeNode> },
}

/// Whether a top-level entry seeds the scan backlog: it is a directory
/// and its remapped path is not excluded.
pub open spec fn spec_unit_in_scope(
    n: TreeNode,
    scan: Seq<char>,
    remap: Seq<char>,
    cfg: PolicyView,
) -> bool {
    &&& n is Dir
    &&& !spec_should_exclude(
        spec_join(scan, n->Dir_name@),
        scan,
        remap,
        cfg.exclude_directories,
    )
}

/// Decide whether a top-level entry seeds the scan backlog; see
/// [`spec_unit_in_scope`].
pub fn unit_in_scope(
    node: &TreeNode,
    scan_path: &str,
    remap_to: &str,
    config: &BaselineConfig,
) -> (r: bool)
    ensures
        r == spec_unit_in_scope(*node, scan_path@, remap_to@, config@),
{
    match node {
        TreeNode::Dir { name, .. } => {
            let phys = join_path(scan_path, name.as_str());
            !should_exclude(phys.as_str(), scan_path, remap_to, config)
        },
        _ => false,
    }
}

/// The records of one top-level unit: its whole walk when it is in
/// scope, nothing otherwise.
pub open spec fn spec_unit_map(
    n: TreeNode,
    scan: Seq<char>,
    remap: Seq<char>,
    cfg: PolicyView,
) -> Map<Seq<char>, FileEntryView> {
    if spec_unit_in_scope(n, scan, remap, cfg) {
        spec_walk_node(n, scan, scan, remap, cfg)
    } else {
        Map::empty()
    }
}

/// The records of a whole scan: the top-level units' records folded in
/// order, later units winning on a logical-path collision.
pub open spec fn spec_scan_map(
    units: Seq<TreeNode>,
    scan: Seq<char>,
    remap: Seq<char>,
    cfg: PolicyView,
) -> Map<Seq<char>, FileEntryView>
    decreases units,
{
    if units.len() == 0 {
        Map::empty()
    } else {
        spec_scan_map(units.drop_last(), scan, remap, cfg).union_prefer_right(
            spec_unit_map(units.last(), scan, remap, cfg),
        )
    }
}

/// The guaranteed progress events of a whole scan, in order: for each
/// in-scope top-level unit, a worker start, a worker completion with the
/// unit's record count, and the total recorded so far.
pub open spec fn spec_scan_events(
    units: Seq<TreeNode>,
    scan: Seq<char>,
    remap: Seq<char>,
    cfg: PolicyView,
) -> Seq<ProgressUpdateView>
    decreases units,
{
    if units.len() == 0 {
        Seq::empty()
    } else {
        let pre = spec_scan_events(units.drop_last(), scan, remap, cfg);
        let n = units.last();
        if spec_unit_in_scope(n, scan, remap, cfg) {
            let display = spec_remap(spec_join(scan, n->Dir_name@), scan, remap);
            pre + seq![
                ProgressUpdateView::WorkerStarted { name: display },
                ProgressUpdateView::WorkerCompleted {
                    name: display,
                    file_count: spec_walk_node(n, scan, scan, remap, cfg).dom().len() as usize,
                },
                ProgressUpdateView::FilesProcessed {
                    count: spec_scan_map(units, scan, remap, cfg).dom().len() as usize,
                },
            ]
        } else {
            pre
        }
    }
}

/// What an idle-or-claiming worker does next.
#[derive(Debug, Clone, Copy, PartialEq, Eq, Structural)]
pub enum WorkerStep {
    /// Claim one backlog entry and scan it.
    Claim,
    /// Stop: cancelled, or no work left, or the idle-retry bound hit.
    Exit,
    /// Back off briefly and poll again: the backlog is empty but a peer
    /// still holds work in flight.
    Backoff,
}

/// One turn of the worker loop, decided from what the worker just
/// observed: cancellation stops it; a non-empty backlog is claimed from;
/// an empty backlog with nothing in flight means the scan is drained;
/// and a worker that has seen only emptiness for more than the retry
/// bound exits regardless — a liveness safeguard against stalled peers,
/// not a correctness proof.
pub fn worker_step(
    cancelled: bool,
    backlog_len: usize,
    in_flight: usize,
    consecutive_empty: u32,
    max_empty: u32,
) -> (s: WorkerStep)
    ensures
        s == (if cancelled {
            WorkerStep::Exit
        } else if backlog_len > 0 {
            WorkerStep::Claim
        } else if in_flight == 0 {
            WorkerStep::Exit
        } else if consecutive_empty > max_empty {
            WorkerStep::Exit
        } else {
            WorkerStep::Backoff
        }),
{
    if cancelled {
        WorkerStep::Exit
    } else if backlog_len > 0 {
        WorkerStep::Claim
    } else if in_flight == 0 {
        WorkerStep::Exit
    } else if consecutive_empty > max_empty {
        WorkerStep::Exit
    } else {
        WorkerStep::Backoff
    }
}

/// The number of worker threads a scan uses: one per top-level unit, at
/// most the host's available parallelism, and none when there is no work.
pub fn plan_worker_count(parallelism: usize, backlog: usize) -> (n: usize)
    ensures
        n == (if backlog == 0 {
            0usize
        } else if parallelism == 0 {
            1usize
        } else if parallelism < backlog {
            parallelism
        } else {
            backlog
        }),
{
    if backlog == 0 {
        0
    } else if parallelism == 0 {
        1
    } else if parallelism < backlog {
        parallelism
    } else {
        backlog
    }
}

/// Create the initial baseline of the observed tree.
///
/// The scan and remap roots are normalised first. A missing root fails
/// with `NotFound` and nothing else does besides cancellation: an
/// untripped run over a present root returns a well-formed, non-delta
/// baseline holding exactly the scan's records. Guaranteed progress
/// events are appended to `events` as units start and finish; the caller
/// persists the returned baseline.
pub fn create_initial_baseline(
    scan_path: &str,
    remap_to: &str,
    root: &ScanRoot,
    config: &BaselineConfig,
    cancel: &CancelToken,
    events: &mut Vec<ProgressUpdate>,
) -> (r: Result<Baseline, ScanError>)
    ensures
        *root is Missing <==> r == Err::<Baseline, ScanError>(ScanError::NotFound),
        match r {
            Ok(b) => {
                let scan_n = spec_normalize_scan_path(scan_path@);
                let remap_n = spec_normalize_remap_to(remap_to@, scan_n);
                &&& b.wf()
                &&& !b.is_delta
                &&& b.scan_path@ == scan_n
                &&& b.remap_to@ == remap_n
                &&& b.files@ == spec_scan_map(root->Present_entries@, scan_n, remap_n, config@)
                &&& b.file_count == b.files@.dom().len()
            },
            Err(e) => e == ScanError::NotFound || e == ScanError::Cancelled,
        },
        old(events)@.is_prefix_of(final(events)@),
        r is Ok ==> event_views(final(events)@) == event_views(old(events)@) + spec_scan_events(
            root->Present_entries@,
            spec_normalize_scan_path(scan_path@),
            spec_normalize_remap_to(remap_to@, spec_normalize_scan_path(scan_path@)),
            config@,
        ),
{
    let scan_n = normalize_scan_path(scan_path);
    let remap_n = normalize_remap_to(remap_to, scan_n.as_str());
    let entries: &Vec<TreeNode> = match root {
        ScanRoot::Missing => {
            return Err(ScanError::NotFound);
        },
        ScanRoot::Present { entries } => entries,
    };
    let ghost sn: Seq<char> = scan_n@;
    let ghost rn: Seq<char> = remap_n@;
    let mut acc = FileMap::new();
    proof {
        assert(event_views(events@) =~= event_views(events@) + spec_scan_events(
            entries@.subrange(0, 0),
            sn,
            rn,
            config@,
        ));
    }
    let n = entries.len();
    let mut i: usize = 0;
    while i < n
        invariant
            *root is Present,
            entries@ == root->Present_entries@,
            n == entries@.len(),
            i <= n,
            acc.wf(),
            scan_n@ == sn,
            remap_n@ == rn,
            acc@ == spec_scan_map(entries@.subrange(0, i as int), sn, rn, config@),
            old(events)@.is_prefix_of(events@),
            event_views(events@) == event_views(old(events)@) + spec_scan_events(
                entries@.subrange(0, i as int),
                sn,
                rn,
                config@,
            ),
        decreases n - i,
    {
        if cancel.is_cancelled() {
            return Err(ScanError::Cancelled);
        }
        proof {
            let sub1 = entries@.subrange(0, i + 1);
            assert(sub1.drop_last() =~= entries@.subrange(0, i as int));
            assert(sub1.last() == entries@[i as int]);
        }
        let unit = &entries[i];
        if unit_in_scope(unit, scan_n.as_str(), remap_n.as_str(), config) {
            match unit {
                TreeNode::Dir { name, .. } => {
                    let phys = join_path(scan_n.as_str(), name.as_str());
                    let display = crate::paths::remap_path(
                        phys.as_str(),
                        scan_n.as_str(),
                        remap_n.as_str(),
                    );
                    proof {
                        assert(entries@[i as int]->Dir_name@ == name@);
                        assert(display@ == spec_remap(spec_join(sn, name@), sn, rn));
                        lemma_prefix_push(
                            old(events)@,
                            events@,
                            ProgressUpdate::WorkerStarted { name: display },
                        );
                    }
                    let ghost ev0 = events@;
                    events.push(ProgressUpdate::WorkerStarted { name: display.clone() });
                    proof {
                        assert(event_views(events@) =~= event_views(ev0).push(
                            ProgressUpdateView::WorkerStarted { name: display@ },
                        ));
                    }
                    let mut local = FileMap::new();
                    let ok = walk_node(
                        unit,
                        scan_n.as_str(),
                        scan_n.as_str(),
                        remap_n.as_str(),
                        config,
                        cancel,
                        &mut local,
                    );
                    if !ok {
                        return Err(ScanError::Cancelled);
                    }
                    let unit_count = local.len();
                    proof {
                        assert(local@ =~= spec_walk_node(*unit, sn, sn, rn, config@));
                        assert(spec_unit_map(entries@[i as int], sn, rn, config@) == local@);
                        assert(spec_walk_node(entries@[i as int], sn, sn, rn, config@).dom().len()
                            == unit_count);
                    }
                    acc.merge_from(local);
                    let total = acc.len();
                    proof {
                        assert(acc@ == spec_scan_map(entries@.subrange(0, i + 1), sn, rn, config@));
                        assert(spec_scan_map(entries@.subrange(0, i + 1), sn, rn, config@).dom().len()
                            == total);
                        lemma_prefix_push(
                            old(events)@,
                            events@,
                            ProgressUpdate::WorkerCompleted {
                                name: display,
                                file_count: unit_count,
                            },
                        );
                    }
                    let ghost ev1 = events@;
                    events.push(
                        ProgressUpdate::WorkerCompleted { name: display, file_count: unit_count },
                    );
                    proof {
                        assert(event_views(events@) =~= event_views(ev1).push(
                            ProgressUpdateView::WorkerCompleted {
                                name: spec_remap(spec_join(sn, name@), sn, rn),
                                file_count: unit_count,
                            },
                        ));
                        lemma_prefix_push(
                            old(events)@,
                            events@,
                            ProgressUpdate::FilesProcessed { count: total },
                        );
                    }
                    let ghost ev2 = events@;
                    events.push(ProgressUpdate::FilesProcessed { count: total });
                    proof {
                        assert(event_views(events@) =~= event_views(ev2).push(
                            ProgressUpdateView::FilesProcessed { count: total },
                        ));
                        assert(event_views(events@) =~= event_views(old(events)@)
                            + spec_scan_events(
                            entries@.subrange(0, i + 1),
                            sn,
                            rn,
                            config@,
                        ));
                    }
                },
                _ => {
                    proof {
                        assert(false);
                    }
                },
            }
        } else {
            proof {
                assert(spec_unit_map(entries@[i as int], sn, rn, config@) =~= Map::<
                    Seq<char>,
                    FileEntryView,
                >::empty());
                assert(acc@.union_prefer_right(Map::<Seq<char>, FileEntryView>::empty())
                    =~= acc@);
                assert(spec_scan_events(entries@.subrange(0, i + 1), sn, rn, config@)
                    == spec_scan_events(entries@.subrange(0, i as int), sn, rn, config@));
            }
        }
        i += 1;
    }
    if cancel.is_cancelled() {
        return Err(ScanError::Cancelled);
    }
    proof {
        assert(entries@.subrange(0, n as int) =~= entries@);
        assert(event_views(events@) == event_views(old(events)@) + spec_scan_events(
            entries@,
            sn,
            rn,
            config@,
        ));
    }
    let mut b = Baseline::new(scan_n, remap_n);
    let count = acc.len();
    b.files = acc;
    b.file_count = count;
    Ok(b)
}

/// A sequence extended on the right keeps its prefixes.
proof fn lemma_prefix_push(a: Seq<ProgressUpdate>, b: Seq<ProgressUpdate>, x: ProgressUpdate)
    requires
        a.is_prefix_of(b),
    ensures
        a.is_prefix_of(b.push(x)),
{
    assert(b.push(x).subrange(0, a.len() as int) =~= b.subrange(0, a.len() as int));
}

} // verus!

verus! {

/// Whether the records of distinct top-level units never share a logical
/// path. This holds of any scan whose remapping sends no two physical
/// paths to one logical path.
pub open spec fn spec_units_disjoint(
    units: Seq<TreeNode>,
    scan: Seq<char>,
    remap: Seq<char>,
    cfg: PolicyView,
) -> bool {
    forall|i: int, j: int|
        0 <= i < j < units.len() ==> (#[trigger] spec_unit_map(units[i], scan, remap, cfg)).dom()
            .disjoint((#[trigger] spec_unit_map(units[j], scan, remap, cfg)).dom())
}

/// With pairwise-disjoint units, the folded scan map holds exactly the
/// units' keys, each mapped to its unit's record.
pub proof fn lemma_scan_map_characterize(
    units: Seq<TreeNode>,
    scan: Seq<char>,
    remap: Seq<char>,
    cfg: PolicyView,
)
    requires
        spec_units_disjoint(units, scan, remap, cfg),
    ensures
        forall|k: Seq<char>|
            #[trigger] spec_scan_map(units, scan, remap, cfg).contains_key(k) <==> exists|i: int|
                0 <= i < units.len() && (#[trigger] spec_unit_map(
                    units[i],
                    scan,
                    remap,
                    cfg,
                )).contains_key(k),
        forall|i: int, k: Seq<char>|
            0 <= i < units.len() && #[trigger] spec_unit_map(units[i], scan, remap, cfg).contains_key(
                k,
            ) ==> spec_scan_map(units, scan, remap, cfg)[k] == spec_unit_map(
                units[i],
                scan,
                remap,
                cfg,
            )[k],
    decreases units.len(),
{
    if units.len() == 0 {
    } else {
        let pre = units.drop_last();
        let n = units.len() - 1;
        assert forall|i: int, j: int| 0 <= i < j < pre.len() implies (#[trigger] spec_unit_map(
            pre[i],
            scan,
            remap,
            cfg,
        )).dom().disjoint((#[trigger] spec_unit_map(pre[j], scan, remap, cfg)).dom()) by {
            assert(pre[i] == units[i] && pre[j] == units[j]);
            assert(spec_unit_map(units[i], scan, remap, cfg).dom().disjoint(
                spec_unit_map(units[j], scan, remap, cfg).dom(),
            ));
        }
        lemma_scan_map_characterize(pre, scan, remap, cfg);
        let whole = spec_scan_map(units, scan, remap, cfg);
        let last_map = spec_unit_map(units[n], scan, remap, cfg);
        assert(units.last() == units[n]);
        assert(whole == spec_scan_map(pre, scan, remap, cfg).union_prefer_right(last_map));
        assert forall|k: Seq<char>| #[trigger] whole.contains_key(k) implies exists|i: int|
            0 <= i < units.len() && (#[trigger] spec_unit_map(units[i], scan, remap, cfg)).contains_key(
                k,
            ) by {
            if last_map.contains_key(k) {
                assert(spec_unit_map(units[n], scan, remap, cfg).contains_key(k));
            } else {
                let i = choose|i: int|
                    0 <= i < pre.len() && (#[trigger] spec_unit_map(
                        pre[i],
                        scan,
                        remap,
                        cfg,
                    )).contains_key(k);
                assert(pre[i] == units[i]);
                assert(spec_unit_map(units[i], scan, remap, cfg).contains_key(k));
            }
        }
        assert forall|k: Seq<char>|
            (exists|i: int|
                0 <= i < units.len() && (#[trigger] spec_unit_map(
                    units[i],
                    scan,
                    remap,
                    cfg,
                )).contains_key(k)) implies #[trigger] whole.contains_key(k) by {
            let i = choose|i: int|
                0 <= i < units.len() && (#[trigger] spec_unit_map(
                    units[i],
                    scan,
                    remap,
                    cfg,
                )).contains_key(k);
            if i < n {
                assert(pre[i] == units[i]);
                assert(spec_unit_map(pre[i], scan, remap, cfg).contains_key(k));
                assert(spec_scan_map(pre, scan, remap, cfg).contains_key(k));
            }
        }
        assert forall|i: int, k: Seq<char>|
            0 <= i < units.len() && #[trigger] spec_unit_map(units[i], scan, remap, cfg).contains_key(
                k,
            ) implies whole[k] == spec_unit_map(units[i], scan, remap, cfg)[k] by {
            if i < n {
                assert(pre[i] == units[i]);
                assert(spec_unit_map(pre[i], scan, remap, cfg).contains_key(k));
                assert(spec_scan_map(pre, scan, remap, cfg)[k] == spec_unit_map(
                    pre[i],
                    scan,
                    remap,
                    cfg,
                )[k]);
                assert(spec_unit_map(units[i], scan, remap, cfg).dom().disjoint(last_map.dom()));
                assert(!last_map.contains_key(k));
            }
        }
    }
}

/// Whether some position of `order` holds the value `v`.
pub open spec fn order_hits(order: Seq<int>, v: int) -> bool {
    exists|i: int| 0 <= i < order.len() && order[i] == v
}

/// Claim order does not matter: folding the top-level units in any order
/// yields the same scan map, provided no two units' records share a
/// logical path. Workers of a pool of any size claim units in some
/// order, and each unit's records are a function of the tree alone, so
/// scans of one tree with pool sizes one and many yield identical maps.
pub proof fn lemma_scan_map_order_irrelevant(
    units: Seq<TreeNode>,
    order: Seq<int>,
    scan: Seq<char>,
    remap: Seq<char>,
    cfg: PolicyView,
)
    requires
        order.len() == units.len(),
        forall|i: int| 0 <= i < order.len() ==> 0 <= #[trigger] order[i] < units.len(),
        forall|i: int, j: int| 0 <= i < j < order.len() ==> order[i] != order[j],
        forall|v: int| 0 <= v < units.len() ==> #[trigger] order_hits(order, v),
        spec_units_disjoint(units, scan, remap, cfg),
    ensures
        spec_scan_map(
            order.map_values(|i: int| units[i]),
            scan,
            remap,
            cfg,
        ) == spec_scan_map(units, scan, remap, cfg),
{
    let reordered = order.map_values(|i: int| units[i]);
    assert(reordered.len() == units.len());
    assert forall|x: int, y: int| 0 <= x < y < reordered.len() implies (#[trigger] spec_unit_map(
        reordered[x],
        scan,
        remap,
        cfg,
    )).dom().disjoint((#[trigger] spec_unit_map(reordered[y], scan, remap, cfg)).dom()) by {
        assert(reordered[x] == units[order[x]]);
        assert(reordered[y] == units[order[y]]);
        assert(order[x] != order[y]);
        if order[x] < order[y] {
            assert(spec_unit_map(units[order[x]], scan, remap, cfg).dom().disjoint(
                spec_unit_map(units[order[y]], scan, remap, cfg).dom(),
            ));
        } else {
            assert(spec_unit_map(units[order[y]], scan, remap, cfg).dom().disjoint(
                spec_unit_map(units[order[x]], scan, remap, cfg).dom(),
            ));
        }
    }
    lemma_scan_map_characterize(units, scan, remap, cfg);
    lemma_scan_map_characterize(reordered, scan, remap, cfg);
    let lhs = spec_scan_map(reordered, scan, remap, cfg);
    let rhs = spec_scan_map(units, scan, remap, cfg);
    assert forall|k: Seq<char>| #[trigger] lhs.contains_key(k) implies rhs.contains_key(k) by {
        let j = choose|j: int|
            0 <= j < reordered.len() && (#[trigger] spec_unit_map(
                reordered[j],
                scan,
                remap,
                cfg,
            )).contains_key(k);
        assert(reordered[j] == units[order[j]]);
        assert(spec_unit_map(units[order[j]], scan, remap, cfg).contains_key(k));
    }
    assert forall|k: Seq<char>| #[trigger] rhs.contains_key(k) implies lhs.contains_key(k) by {
        let i = choose|i: int|
            0 <= i < units.len() && (#[trigger] spec_unit_map(units[i], scan, remap, cfg)).contains_key(
                k,
            );
        assert(order_hits(order, i));
        let j = choose|j: int| 0 <= j < order.len() && order[j] == i;
        assert(reordered[j] == units[i]);
        assert(spec_unit_map(reordered[j], scan, remap, cfg).contains_key(k));
    }
    assert forall|k: Seq<char>| #[trigger] rhs.contains_key(k) implies lhs[k] == rhs[k] by {
        let i = choose|i: int|
            0 <= i < units.len() && (#[trigger] spec_unit_map(units[i], scan, remap, cfg)).contains_key(
                k,
            );
        assert(order_hits(order, i));
        let j = choose|j: int| 0 <= j < order.len() && order[j] == i;
        assert(reordered[j] == units[i]);
        assert(spec_unit_map(reordered[j], scan, remap, cfg).contains_key(k));
        assert(lhs[k] == spec_unit_map(reordered[j], scan, remap, cfg)[k]);
        assert(rhs[k] == spec_unit_map(units[i], scan, remap, cfg)[k]);
    }
    assert(lhs =~= rhs);
}

/// Scanning an unchanged tree is idempotent: two baselines built from the
/// same observed tree, roots and policy hold equal `files` maps, hashes
/// and metadata included, though their `created_at` and `version` stamps
/// may differ.
pub proof fn lemma_scan_idempotent(
    b1: Baseline,
    b2: Baseline,
    units: Seq<TreeNode>,
    scan: Seq<char>,
    remap: Seq<char>,
    cfg: PolicyView,
)
    requires
        b1.files@ == spec_scan_map(units, scan, remap, cfg),
        b2.files@ == spec_scan_map(units, scan, remap, cfg),
    ensures
        b1.files@ == b2.files@,
{
}

} // verus!
