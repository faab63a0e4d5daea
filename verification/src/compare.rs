//! Diffing two baselines into a change summary.

use vstd::prelude::*;
use vstd::set_lib::lemma_len_subset;
use crate::baseline::Baseline;
use crate::classify::FileEntryView;
use crate::classify::TrackMode;
use crate::classify::TrackModeView;
use crate::strutil::str_eq;

verus! {

/// Counts of differences between two baselines. The package-delta fields
/// are not computable from baseline data and stay zero.
#[derive(Debug, Clone, Copy, PartialEq, Eq, Structural)]
pub struct ComparisonResults {
    pub changed: usize,
    pub new: usize,
    pub deleted: usize,
    pub packages_added: usize,
    pub packages_removed: usize,
    pub packages_upgraded: usize,
}

/// Whether a path present in both baselines counts as changed: with
/// content tracked on both sides, exactly when the checksums differ; with
/// existence-only tracking on either side, exactly when size, modification
/// time or permissions differ.
pub open spec fn spec_entry_changed(a: TrackModeView, b: TrackModeView) -> bool {
    match (a, b) {
        (
            TrackModeView::Content { checksum: c1, .. },
            TrackModeView::Content { checksum: c2, .. },
        ) => c1 != c2,
        _ => a.size() != b.size() || a.modified() != b.modified() || a.permissions()
            != b.permissions(),
    }
}

/// Paths tracked by `other` but not by `base`.
pub open spec fn spec_new_keys(
    base: Map<Seq<char>, FileEntryView>,
    other: Map<Seq<char>, FileEntryView>,
) -> Set<Seq<char>> {
    other.dom().difference(base.dom())
}

/// Paths tracked by `base` but not by `other`.
pub open spec fn spec_deleted_keys(
    base: Map<Seq<char>, FileEntryView>,
    other: Map<Seq<char>, FileEntryView>,
) -> Set<Seq<char>> {
    base.dom().difference(other.dom())
}

/// Paths tracked by both whose records count as changed.
pub open spec fn spec_changed_keys(
    base: Map<Seq<char>, FileEntryView>,
    other: Map<Seq<char>, FileEntryView>,
) -> Set<Seq<char>> {
    Set::new(
        |k: Seq<char>|
            base.contains_key(k) && other.contains_key(k) && spec_entry_changed(
                base[k].track_mode,
                other[k].track_mode,
            ),
    )
}

/// The recorded size of a track mode.
fn track_size(t: &TrackMode) -> (r: u64)
    ensures
        r == t@.size(),
{
    match t {
        TrackMode::Content { size, .. } => *size,
        TrackMode::Existence { size, .. } => *size,
    }
}

/// The recorded modification time of a track mode.
fn track_modified(t: &TrackMode) -> (r: u64)
    ensures
        r == t@.modified(),
{
    match t {
        TrackMode::Content { modified, .. } => *modified,
        TrackMode::Existence { modified, .. } => *modified,
    }
}

/// The recorded permission bits of a track mode.
fn track_permissions(t: &TrackMode) -> (r: u32)
    ensures
        r == t@.permissions(),
{
    match t {
        TrackMode::Content { permissions, .. } => *permissions,
        TrackMode::Existence { permissions, .. } => *permissions,
    }
}

/// Decide whether two records of one path count as changed; see
/// [`spec_entry_changed`].
pub fn entry_changed(a: &TrackMode, b: &TrackMode) -> (r: bool)
    ensures
        r == spec_entry_changed(a@, b@),
{
    match (a, b) {
        (TrackMode::Content { checksum: c1, .. }, TrackMode::Content { checksum: c2, .. }) => {
            !str_eq(c1.as_str(), c2.as_str())
        },
        _ => {
            track_size(a) != track_size(b) || track_modified(a) != track_modified(b)
                || track_permissions(a) != track_permissions(b)
        },
    }
}

/// Diff two baselines: paths only in `other` are new, paths only in
/// `base` are deleted, paths in both are changed exactly as
/// [`spec_entry_changed`] says. Package-delta counts stay zero.
pub fn compare(base: &Baseline, other: &Baseline) -> (r: ComparisonResults)
    requires
        base.wf(),
        other.wf(),
    ensures
        r.new == spec_new_keys(base.files@, other.files@).len(),
        r.deleted == spec_deleted_keys(base.files@, other.files@).len(),
        r.changed == spec_changed_keys(base.files@, other.files@).len(),
        r.packages_added == 0,
        r.packages_removed == 0,
        r.packages_upgraded == 0,
{
    let ghost onew = spec_new_keys(base.files@, other.files@);
    let ghost ochg = spec_changed_keys(base.files@, other.files@);
    let ghost odel = spec_deleted_keys(base.files@, other.files@);
    proof {
        base.files.lemma_keys();
        other.files.lemma_keys();
        lemma_len_subset(onew, other.files@.dom());
        lemma_len_subset(ochg, other.files@.dom());
        lemma_len_subset(odel, base.files@.dom());
    }
    let mut new_count: usize = 0;
    let mut changed_count: usize = 0;
    let mut deleted_count: usize = 0;
    let ghost mut cn: Set<Seq<char>> = Set::empty();
    let ghost mut cc: Set<Seq<char>> = Set::empty();
    let n = other.files.len();
    let mut i: usize = 0;
    while i < n
        invariant
            base.wf(),
            other.wf(),
            n == other.files@.dom().len(),
            i <= n,
            onew == spec_new_keys(base.files@, other.files@),
            ochg == spec_changed_keys(base.files@, other.files@),
            cn.finite(),
            cc.finite(),
            cn.len() == new_count,
            cc.len() == changed_count,
            new_count <= i,
            changed_count <= i,
            forall|k: Seq<char>| #[trigger] cn.contains(k) ==> onew.contains(k),
            forall|k: Seq<char>| #[trigger] cc.contains(k) ==> ochg.contains(k),
            forall|k: Seq<char>|
                #[trigger] cn.contains(k) ==> exists|j: int|
                    0 <= j < i && other.files.keys()[j] == k,
            forall|k: Seq<char>|
                #[trigger] cc.contains(k) ==> exists|j: int|
                    0 <= j < i && other.files.keys()[j] == k,
            forall|j: int|
                0 <= j < i && onew.contains(#[trigger] other.files.keys()[j]) ==> cn.contains(
                    other.files.keys()[j],
                ),
            forall|j: int|
                0 <= j < i && ochg.contains(#[trigger] other.files.keys()[j]) ==> cc.contains(
                    other.files.keys()[j],
                ),
        decreases n - i,
    {
        proof {
            other.files.lemma_keys();
        }
        let kv = other.files.entry_at(i);
        let ghost k = kv.0@;
        match base.files.get(kv.0.as_str()) {
            None => {
                proof {
                    assert(onew.contains(k));
                    assert(!cn.contains(k)) by {
                        if cn.contains(k) {
                            let j = choose|j: int| 0 <= j < i && other.files.keys()[j] == k;
                            assert(other.files.keys()[j] == other.files.keys()[i as int]);
                        }
                    }
                    cn = cn.insert(k);
                }
                new_count += 1;
            },
            Some(be) => {
                if entry_changed(&be.track_mode, &kv.1.track_mode) {
                    proof {
                        assert(ochg.contains(k));
                        assert(!cc.contains(k)) by {
                            if cc.contains(k) {
                                let j = choose|j: int| 0 <= j < i && other.files.keys()[j] == k;
                                assert(other.files.keys()[j] == other.files.keys()[i as int]);
                            }
                        }
                        cc = cc.insert(k);
                    }
                    changed_count += 1;
                } else {
                    proof {
                        assert(!ochg.contains(k));
                        assert(!onew.contains(k));
                    }
                }
            },
        }
        i += 1;
    }
    proof {
        other.files.lemma_keys();
        assert(cn =~= onew) by {
            assert forall|k: Seq<char>| onew.contains(k) implies cn.contains(k) by {
                assert(other.files@.contains_key(k));
                let j = choose|j: int|
                    0 <= j < other.files.keys().len() && other.files.keys()[j] == k;
                assert(onew.contains(other.files.keys()[j]));
            }
        }
        assert(cc =~= ochg) by {
            assert forall|k: Seq<char>| ochg.contains(k) implies cc.contains(k) by {
                assert(other.files@.contains_key(k));
                let j = choose|j: int|
                    0 <= j < other.files.keys().len() && other.files.keys()[j] == k;
                assert(ochg.contains(other.files.keys()[j]));
            }
        }
    }
    let ghost mut cd: Set<Seq<char>> = Set::empty();
    let bn = base.files.len();
    let mut i: usize = 0;
    while i < bn
        invariant
            base.wf(),
            other.wf(),
            bn == base.files@.dom().len(),
            i <= bn,
            odel == spec_deleted_keys(base.files@, other.files@),
            cd.finite(),
            cd.len() == deleted_count,
            deleted_count <= i,
            forall|k: Seq<char>| #[trigger] cd.contains(k) ==> odel.contains(k),
            forall|k: Seq<char>|
                #[trigger] cd.contains(k) ==> exists|j: int|
                    0 <= j < i && base.files.keys()[j] == k,
            forall|j: int|
                0 <= j < i && odel.contains(#[trigger] base.files.keys()[j]) ==> cd.contains(
                    base.files.keys()[j],
                ),
        decreases bn - i,
    {
        proof {
            base.files.lemma_keys();
        }
        let kv = base.files.entry_at(i);
        let ghost k = kv.0@;
        match other.files.get(kv.0.as_str()) {
            None => {
                proof {
                    assert(odel.contains(k));
                    assert(!cd.contains(k)) by {
                        if cd.contains(k) {
                            let j = choose|j: int| 0 <= j < i && base.files.keys()[j] == k;
                            assert(base.files.keys()[j] == base.files.keys()[i as int]);
                        }
                    }
                    cd = cd.insert(k);
                }
                deleted_count += 1;
            },
            Some(_) => {
                proof {
                    assert(!odel.contains(k));
                }
            },
        }
        i += 1;
    }
    proof {
        base.files.lemma_keys();
        assert(cd =~= odel) by {
            assert forall|k: Seq<char>| odel.contains(k) implies cd.contains(k) by {
                assert(base.files@.contains_key(k));
                let j = choose|j: int| 0 <= j < base.files.keys().len() && base.files.keys()[j] == k;
                assert(odel.contains(base.files.keys()[j]));
            }
        }
    }
    ComparisonResults {
        changed: changed_count,
        new: new_count,
        deleted: deleted_count,
        packages_added: 0,
        packages_removed: 0,
        packages_upgraded: 0,
    }
}

/// A record never counts as changed against itself.
pub proof fn lemma_entry_changed_irreflexive(t: TrackModeView)
    ensures
        !spec_entry_changed(t, t),
{
}

/// Comparing a baseline against itself finds nothing: no changed, new or
/// deleted paths.
pub proof fn lemma_compare_self(m: Map<Seq<char>, FileEntryView>)
    ensures
        spec_new_keys(m, m).len() == 0,
        spec_deleted_keys(m, m).len() == 0,
        spec_changed_keys(m, m).len() == 0,
{
    assert(spec_new_keys(m, m) =~= Set::<Seq<char>>::empty());
    assert(spec_deleted_keys(m, m) =~= Set::<Seq<char>>::empty());
    assert(spec_changed_keys(m, m) =~= Set::<Seq<char>>::empty());
}

/// Against a baseline that drops one tracked path and adds one fresh
/// path, leaving every other record alone, the diff is exactly one new
/// and one deleted path and nothing changed.
pub proof fn lemma_compare_one_in_one_out(
    a: Map<Seq<char>, FileEntryView>,
    b: Map<Seq<char>, FileEntryView>,
    k_removed: Seq<char>,
    k_added: Seq<char>,
    v: FileEntryView,
)
    requires
        a.contains_key(k_removed),
        !a.contains_key(k_added),
        b == a.remove(k_removed).insert(k_added, v),
    ensures
        spec_new_keys(a, b).len() == 1,
        spec_deleted_keys(a, b).len() == 1,
        spec_changed_keys(a, b).len() == 0,
{
    assert(k_added != k_removed);
    assert(spec_new_keys(a, b) =~= Set::<Seq<char>>::empty().insert(k_added));
    assert(spec_deleted_keys(a, b) =~= Set::<Seq<char>>::empty().insert(k_removed));
    assert(spec_changed_keys(a, b) =~= Set::<Seq<char>>::empty()) by {
        assert forall|k: Seq<char>| !spec_changed_keys(a, b).contains(k) by {
            if a.contains_key(k) && b.contains_key(k) {
                assert(k != k_removed && k != k_added);
                assert(b[k] == a[k]);
                lemma_entry_changed_irreflexive(a[k].track_mode);
            }
        }
    }
}

} // verus!
