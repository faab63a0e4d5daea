//! Interactive application state: the current view, the baseline list and
//! its selection, popup state, and the progress of a running scan.

use vstd::prelude::*;
use vstd::relations::sorted_by;
use crate::clock::epoch_now;
use crate::compare::ComparisonResults;
use crate::config::Config;
use crate::progress::ProgressUpdate;
use crate::strutil::str_eq;

verus! {

/// Which view the application shows.
#[derive(Debug, Clone, Copy, PartialEq, Eq, Structural)]
pub enum ViewMode {
    Dashboard,
    Changes,
    Baselines,
}

/// One row of the baseline list.
#[derive(Debug, Clone)]
pub struct BaselineItem {
    pub version: String,
    pub file_count: usize,
    pub is_initial: bool,
    pub is_active: bool,
}

/// What a confirmed popup does.
#[derive(Debug, Clone)]
pub enum PopupAction {
    /// Remove the baseline with this version from the list.
    DeleteBaseline { version: String },
}

/// The kind and content of a popup.
#[derive(Debug, Clone)]
pub enum PopupType {
    /// A yes/no question; `selected` is zero on yes, one on no.
    Confirm { message: String, selected: usize, action: PopupAction },
    Info { message: String },
    Error { message: String },
}

/// A modal popup over the current view.
#[derive(Debug, Clone)]
pub struct Popup {
    pub title: String,
    pub popup_type: PopupType,
}

impl Popup {
    /// A yes/no confirmation, starting on yes.
    pub fn confirm(title: String, message: String, action: PopupAction) -> (p: Popup)
        ensures
            p.title@ == title@,
            p.popup_type == (PopupType::Confirm { message, selected: 0usize, action }),
    {
        Popup { title, popup_type: PopupType::Confirm { message, selected: 0, action } }
    }

    /// An informational notice.
    pub fn info(title: String, message: String) -> (p: Popup)
        ensures
            p.title@ == title@,
            p.popup_type == (PopupType::Info { message }),
    {
        Popup { title, popup_type: PopupType::Info { message } }
    }

    /// An error notice.
    pub fn error(title: String, message: String) -> (p: Popup)
        ensures
            p.title@ == title@,
            p.popup_type == (PopupType::Error { message }),
    {
        Popup { title, popup_type: PopupType::Error { message } }
    }
}

/// Lexicographic order on character sequences, by character value.
pub open spec fn spec_str_le(a: Seq<char>, b: Seq<char>) -> bool
    decreases a.len(),
{
    if a.len() == 0 {
        true
    } else if b.len() == 0 {
        false
    } else if a[0] != b[0] {
        a[0] < b[0]
    } else {
        spec_str_le(a.skip(1), b.skip(1))
    }
}

/// Lexicographic order is total.
pub proof fn lemma_str_le_total(a: Seq<char>, b: Seq<char>)
    ensures
        spec_str_le(a, b) || spec_str_le(b, a),
    decreases a.len(),
{
    if a.len() > 0 && b.len() > 0 && a[0] == b[0] {
        lemma_str_le_total(a.skip(1), b.skip(1));
    }
}

/// Lexicographic order is transitive.
pub proof fn lemma_str_le_trans(a: Seq<char>, b: Seq<char>, c: Seq<char>)
    requires
        spec_str_le(a, b),
        spec_str_le(b, c),
    ensures
        spec_str_le(a, c),
    decreases a.len(),
{
    if a.len() > 0 && b.len() > 0 && c.len() > 0 && a[0] == b[0] && b[0] == c[0] {
        lemma_str_le_trans(a.skip(1), b.skip(1), c.skip(1));
    }
}

/// Decide lexicographic order; see [`spec_str_le`].
pub fn str_le(a: &str, b: &str) -> (r: bool)
    ensures
        r == spec_str_le(a@, b@),
{
    let alen = a.unicode_len();
    let blen = b.unicode_len();
    let mut i: usize = 0;
    proof {
        assert(a@.skip(0) =~= a@);
        assert(b@.skip(0) =~= b@);
    }
    loop
        invariant
            alen == a@.len(),
            blen == b@.len(),
            i <= alen,
            i <= blen,
            spec_str_le(a@, b@) == spec_str_le(a@.skip(i as int), b@.skip(i as int)),
            spec_str_le(b@, a@) == spec_str_le(b@.skip(i as int), a@.skip(i as int)),
        decreases alen - i,
    {
        if i == alen {
            return true;
        }
        if i == blen {
            return false;
        }
        let ca = a.get_char(i);
        let cb = b.get_char(i);
        if ca != cb {
            return ca < cb;
        }
        proof {
            assert(a@.skip(i as int).skip(1) =~= a@.skip(i + 1));
            assert(b@.skip(i as int).skip(1) =~= b@.skip(i + 1));
        }
        i += 1;
    }
}

/// Display order of the baseline list: deltas before the initial
/// baseline, and deltas among themselves newest version first. Rows that
/// differ only in `is_active` are not ordered against each other.
pub open spec fn spec_item_le(a: BaselineItem, b: BaselineItem) -> bool {
    if a.is_initial != b.is_initial {
        b.is_initial
    } else if !a.is_initial {
        spec_str_le(b.version@, a.version@)
    } else {
        true
    }
}

/// Display order is total.
pub proof fn lemma_item_le_total(a: BaselineItem, b: BaselineItem)
    ensures
        spec_item_le(a, b) || spec_item_le(b, a),
{
    if a.is_initial == b.is_initial && !a.is_initial {
        lemma_str_le_total(a.version@, b.version@);
    }
}

/// Display order is transitive.
pub proof fn lemma_item_le_trans(a: BaselineItem, b: BaselineItem, c: BaselineItem)
    requires
        spec_item_le(a, b),
        spec_item_le(b, c),
    ensures
        spec_item_le(a, c),
{
    if a.is_initial == b.is_initial && b.is_initial == c.is_initial && !a.is_initial {
        lemma_str_le_trans(c.version@, b.version@, a.version@);
    }
}

/// Decide display order; see [`spec_item_le`].
pub fn item_le(a: &BaselineItem, b: &BaselineItem) -> (r: bool)
    ensures
        r == spec_item_le(*a, *b),
{
    if a.is_initial != b.is_initial {
        b.is_initial
    } else if !a.is_initial {
        str_le(b.version.as_str(), a.version.as_str())
    } else {
        true
    }
}

/// Inserting an element anywhere in a sequence adds it to the multiset.
proof fn lemma_seq_insert_multiset(s: Seq<BaselineItem>, i: int, x: BaselineItem)
    requires
        0 <= i <= s.len(),
    ensures
        s.insert(i, x).to_multiset() == s.to_multiset().insert(x),
{
    broadcast use vstd::seq_lib::group_to_multiset_ensures;
    broadcast use vstd::multiset::group_multiset_axioms;

    let t = s.insert(i, x);
    assert(t.remove(i) =~= s);
    assert(t[i] == x);
    assert(t.remove(i).to_multiset() == t.to_multiset().remove(x));
    assert(t.contains(x)) by {
        assert(t[i] == x);
    }
    assert(t.to_multiset().count(x) > 0);
    assert(t.to_multiset().remove(x).insert(x) =~= t.to_multiset());
}

/// Sort the baseline list into display order: a permutation of the input,
/// sorted as [`spec_item_le`] says.
pub fn sort_baseline_items(items: &mut Vec<BaselineItem>)
    ensures
        sorted_by(final(items)@, |a: BaselineItem, b: BaselineItem| spec_item_le(a, b)),
        final(items)@.to_multiset() == old(items)@.to_multiset(),
{
    broadcast use vstd::seq_lib::group_to_multiset_ensures;

    let ghost leq = |a: BaselineItem, b: BaselineItem| spec_item_le(a, b);
    let n = items.len();
    let mut i: usize = 1;
    if n <= 1 {
        return ;
    }
    while i < n
        invariant
            n == items@.len(),
            1 <= i <= n,
            sorted_by(items@.subrange(0, i as int), leq),
            items@.to_multiset() == old(items)@.to_multiset(),
            leq == (|a: BaselineItem, b: BaselineItem| spec_item_le(a, b)),
        decreases n - i,
    {
        let mut j: usize = i;
        proof {
            assert forall|p: int, q: int|
                0 <= p < q <= i && p != j && q != j implies spec_item_le(
                #[trigger] items@[p],
                #[trigger] items@[q],
            ) by {
                assert(items@.subrange(0, i as int)[p] == items@[p]);
                assert(items@.subrange(0, i as int)[q] == items@[q]);
                assert(leq(items@.subrange(0, i as int)[p], items@.subrange(0, i as int)[q]));
            }
        }
        while j > 0 && !item_le(&items[j - 1], &items[j])
            invariant
                n == items@.len(),
                1 <= i < n,
                j <= i,
                items@.to_multiset() == old(items)@.to_multiset(),
                leq == (|a: BaselineItem, b: BaselineItem| spec_item_le(a, b)),
                forall|p: int, q: int|
                    0 <= p < q <= i && p != j && q != j ==> spec_item_le(
                        #[trigger] items@[p],
                        #[trigger] items@[q],
                    ),
                forall|q: int| j < q <= i ==> spec_item_le(items@[j as int], #[trigger] items@[q]),
            decreases j,
        {
            proof {
                lemma_item_le_total(items@[j - 1], items@[j as int]);
            }
            let ghost pre = items@;
            let x = items.remove(j);
            items.insert(j - 1, x);
            proof {
                broadcast use vstd::seq_lib::group_to_multiset_ensures;
                broadcast use vstd::multiset::group_multiset_axioms;

                assert(pre.remove(j as int).to_multiset() == pre.to_multiset().remove(x));
                lemma_seq_insert_multiset(pre.remove(j as int), j - 1, x);
                assert(pre.contains(x)) by {
                    assert(pre[j as int] == x);
                }
                assert(pre.to_multiset().count(x) > 0);
                assert(pre.to_multiset().remove(x).insert(x) =~= pre.to_multiset());
                let cur = items@;
                assert forall|p: int| 0 <= p < cur.len() && p != j - 1 && p != j implies cur[p]
                    == pre[p] by {
                    assert(cur == pre.remove(j as int).insert(j - 1, x));
                }
                assert(cur[j - 1] == pre[j as int]);
                assert(cur[j as int] == pre[j - 1]);
            }
            j -= 1;
        }
        proof {
            let cur = items@;
            assert forall|p: int, q: int| 0 <= p < q <= i implies spec_item_le(
                #[trigger] cur[p],
                #[trigger] cur[q],
            ) by {
                if q == j && j > 0 {
                    assert(spec_item_le(cur[j - 1], cur[j as int]));
                    if p < j - 1 {
                        lemma_item_le_trans(cur[p], cur[j - 1], cur[j as int]);
                    }
                }
            }
            assert(sorted_by(cur.subrange(0, i + 1), leq)) by {
                assert forall|p: int, q: int|
                    0 <= p < q < cur.subrange(0, i + 1).len() implies leq(
                    #[trigger] cur.subrange(0, i + 1)[p],
                    #[trigger] cur.subrange(0, i + 1)[q],
                ) by {
                    assert(cur.subrange(0, i + 1)[p] == cur[p]);
                    assert(cur.subrange(0, i + 1)[q] == cur[q]);
                }
            }
        }
        i += 1;
    }
    proof {
        assert(items@.subrange(0, n as int) =~= items@);
    }
}

/// The index the active baseline starts at: the first delta, or the last
/// row when only the initial baseline exists, or zero for an empty list.
pub fn initial_active_index(items: &Vec<BaselineItem>) -> (r: usize)
    ensures
        (exists|i: int| 0 <= i < items@.len() && !(#[trigger] items@[i]).is_initial) ==> (r
            < items@.len() && !items@[r as int].is_initial && forall|j: int|
            0 <= j < r ==> (#[trigger] items@[j]).is_initial),
        !(exists|i: int| 0 <= i < items@.len() && !(#[trigger] items@[i]).is_initial) ==> r == (
        if items@.len() > 0 {
            items@.len() - 1
        } else {
            0
        }),
{
    let n = items.len();
    let mut i: usize = 0;
    while i < n
        invariant
            n == items@.len(),
            i <= n,
            forall|j: int| 0 <= j < i ==> (#[trigger] items@[j]).is_initial,
        decreases n - i,
    {
        if !items[i].is_initial {
            return i;
        }
        i += 1;
    }
    if n > 0 {
        n - 1
    } else {
        0
    }
}

} // verus!

verus! {

/// Mathematical model of a [`PopupAction`].
pub enum PopupActionView {
    DeleteBaseline { version: Seq<char> },
}

impl View for PopupAction {
    type V = PopupActionView;

    open spec fn view(&self) -> PopupActionView {
        match self {
            PopupAction::DeleteBaseline { version } => PopupActionView::DeleteBaseline {
                version: version@,
            },
        }
    }
}

/// Mathematical model of a [`PopupType`].
pub enum PopupTypeView {
    Confirm { message: Seq<char>, selected: usize, action: PopupActionView },
    Info { message: Seq<char> },
    Error { message: Seq<char> },
}

impl View for PopupType {
    type V = PopupTypeView;

    open spec fn view(&self) -> PopupTypeView {
        match self {
            PopupType::Confirm { message, selected, action } => PopupTypeView::Confirm {
                message: message@,
                selected: *selected,
                action: action@,
            },
            PopupType::Info { message } => PopupTypeView::Info { message: message@ },
            PopupType::Error { message } => PopupTypeView::Error { message: message@ },
        }
    }
}

/// Mathematical model of a [`Popup`].
pub struct PopupView {
    pub title: Seq<char>,
    pub popup_type: PopupTypeView,
}

impl View for Popup {
    type V = PopupView;

    open spec fn view(&self) -> PopupView {
        PopupView { title: self.title@, popup_type: self.popup_type@ }
    }
}

/// The fields of the application state that progress updates act on, as
/// plain mathematical values.
pub struct ProgressStateView {
    pub baseline_progress: Seq<(Seq<char>, usize, Seq<char>)>,
    pub baseline_completed: Seq<(Seq<char>, usize)>,
    pub baseline_files_processed: usize,
    pub package_db_progress: Option<(usize, usize)>,
    pub baseline_phase: Seq<char>,
    pub creating_baseline: bool,
    pub creating_initial: bool,
    pub popup: Option<PopupView>,
}

/// The view of one worker-progress row.
pub open spec fn row_view(t: (String, usize, String)) -> (Seq<char>, usize, Seq<char>) {
    (t.0@, t.1, t.2@)
}

/// The view of one completed-directory row.
pub open spec fn done_view(t: (String, usize)) -> (Seq<char>, usize) {
    (t.0@, t.1)
}

/// The first row whose worker name is `name`, if any.
pub open spec fn spec_find_worker(
    s: Seq<(Seq<char>, usize, Seq<char>)>,
    name: Seq<char>,
) -> Option<int>
    decreases s.len(),
{
    if s.len() == 0 {
        None
    } else if s[0].0 == name {
        Some(0)
    } else {
        match spec_find_worker(s.drop_first(), name) {
            Some(i) => Some(i + 1),
            None => None,
        }
    }
}

/// A found row is the first match; a miss means no row matches.
pub proof fn lemma_find_worker(s: Seq<(Seq<char>, usize, Seq<char>)>, name: Seq<char>)
    ensures
        match spec_find_worker(s, name) {
            Some(i) => 0 <= i < s.len() && s[i].0 == name && forall|j: int|
                0 <= j < i ==> (#[trigger] s[j]).0 != name,
            None => forall|j: int| 0 <= j < s.len() ==> (#[trigger] s[j]).0 != name,
        },
    decreases s.len(),
{
    if s.len() > 0 && s[0].0 != name {
        lemma_find_worker(s.drop_first(), name);
        assert forall|j: int|
            0 <= j < s.len() implies (match spec_find_worker(s.drop_first(), name) {
            Some(i) => j < i + 1 ==> (#[trigger] s[j]).0 != name,
            None => (#[trigger] s[j]).0 != name,
        }) by {
            if j > 0 {
                assert(s.drop_first()[j - 1] == s[j]);
            }
        }
    }
}

/// What one progress update does to the progress-relevant state: a
/// started worker gains a fresh row; worker progress rewrites or adds its
/// row; a completed worker moves from the active rows to the completed
/// list; counters, package progress and phase are overwritten; a
/// completion ends creation and raises an info or error popup.
pub open spec fn spec_apply_update(s: ProgressStateView, u: ProgressUpdate) -> ProgressStateView {
    match u {
        ProgressUpdate::WorkerStarted { name } => ProgressStateView {
            baseline_progress: s.baseline_progress.push((name@, 0usize, Seq::empty())),
            ..s
        },
        ProgressUpdate::WorkerProgress { name, file_count, current_path } => {
            match spec_find_worker(s.baseline_progress, name@) {
                Some(i) => ProgressStateView {
                    baseline_progress: s.baseline_progress.update(
                        i,
                        (name@, file_count, current_path@),
                    ),
                    ..s
                },
                None => ProgressStateView {
                    baseline_progress: s.baseline_progress.push((name@, file_count, current_path@)),
                    ..s
                },
            }
        },
        ProgressUpdate::WorkerCompleted { name, file_count } => ProgressStateView {
            baseline_progress: s.baseline_progress.filter(
                |w: (Seq<char>, usize, Seq<char>)| w.0 != name@,
            ),
            baseline_completed: s.baseline_completed.push((name@, file_count)),
            ..s
        },
        ProgressUpdate::FilesProcessed { count } => ProgressStateView {
            baseline_files_processed: count,
            ..s
        },
        ProgressUpdate::PackageProgress { processed, total } => ProgressStateView {
            package_db_progress: Some((processed, total)),
            ..s
        },
        ProgressUpdate::PhaseChanged { phase } => ProgressStateView { baseline_phase: phase@, ..s },
        ProgressUpdate::BaselineCompleted { success, message } => ProgressStateView {
            creating_baseline: false,
            creating_initial: false,
            popup: Some(
                if success {
                    PopupView {
                        title: "Baseline Created"@,
                        popup_type: PopupTypeView::Info { message: message@ },
                    }
                } else {
                    PopupView {
                        title: "Baseline Creation Failed"@,
                        popup_type: PopupTypeView::Error { message: message@ },
                    }
                },
            ),
            ..s
        },
    }
}

/// A batch of updates applied in order.
pub open spec fn spec_apply_updates(
    s: ProgressStateView,
    us: Seq<ProgressUpdate>,
) -> ProgressStateView
    decreases us.len(),
{
    if us.len() == 0 {
        s
    } else {
        spec_apply_update(spec_apply_updates(s, us.drop_last()), us.last())
    }
}

} // verus!

verus! {

/// Whether the list holds the initial baseline.
fn has_initial_item(items: &Vec<BaselineItem>) -> (r: bool)
    ensures
        r == exists|i: int| 0 <= i < items@.len() && (#[trigger] items@[i]).is_initial,
{
    let n = items.len();
    let mut i: usize = 0;
    while i < n
        invariant
            n == items@.len(),
            i <= n,
            forall|j: int| 0 <= j < i ==> !(#[trigger] items@[j]).is_initial,
        decreases n - i,
    {
        if items[i].is_initial {
            return true;
        }
        i += 1;
    }
    false
}

/// A baseline row with its active mark cleared.
pub open spec fn spec_unmarked(b: BaselineItem) -> BaselineItem {
    BaselineItem { is_active: false, ..b }
}

/// The interactive application state.
pub struct App {
    pub config: Config,
    pub data_dir: String,
    pub current_view: ViewMode,
    pub should_quit: bool,
    pub baselines: Vec<BaselineItem>,
    pub selected_baseline: usize,
    pub active_baseline: usize,
    pub comparison_results: Option<ComparisonResults>,
    pub popup: Option<Popup>,
    pub creating_baseline: bool,
    pub creating_initial: bool,
    pub baseline_progress: Vec<(String, usize, String)>,
    pub baseline_completed: Vec<(String, usize)>,
    pub baseline_files_processed: usize,
    pub baseline_estimated_total: Option<usize>,
    pub baseline_start_time: Option<u64>,
    pub package_db_progress: Option<(usize, usize)>,
    pub baseline_phase: String,
}

impl App {
    /// The progress-relevant part of the state, as plain values.
    pub open spec fn progress_view(&self) -> ProgressStateView {
        ProgressStateView {
            baseline_progress: self.baseline_progress@.map_values(
                |t: (String, usize, String)| row_view(t),
            ),
            baseline_completed: self.baseline_completed@.map_values(
                |t: (String, usize)| done_view(t),
            ),
            baseline_files_processed: self.baseline_files_processed,
            package_db_progress: self.package_db_progress,
            baseline_phase: self.baseline_phase@,
            creating_baseline: self.creating_baseline,
            creating_initial: self.creating_initial,
            popup: match self.popup {
                Some(p) => Some(p@),
                None => None,
            },
        }
    }

    /// The fields progress updates never touch.
    pub open spec fn same_non_progress(a: App, b: App) -> bool {
        &&& a.config == b.config
        &&& a.data_dir == b.data_dir
        &&& a.current_view == b.current_view
        &&& a.should_quit == b.should_quit
        &&& a.baselines == b.baselines
        &&& a.selected_baseline == b.selected_baseline
        &&& a.active_baseline == b.active_baseline
        &&& a.comparison_results == b.comparison_results
        &&& a.baseline_estimated_total == b.baseline_estimated_total
        &&& a.baseline_start_time == b.baseline_start_time
    }

    /// A fresh application state: the baselines view, no baselines, no
    /// popup, no scan running, default configuration.
    pub fn new() -> (a: App)
        ensures
            a.current_view == ViewMode::Baselines,
            !a.should_quit,
            a.baselines@.len() == 0,
            a.selected_baseline == 0,
            a.active_baseline == 0,
            a.comparison_results is None,
            a.popup is None,
            !a.creating_baseline,
            !a.creating_initial,
            a.baseline_progress@.len() == 0,
            a.baseline_completed@.len() == 0,
            a.baseline_files_processed == 0,
            a.baseline_estimated_total is None,
            a.baseline_start_time is None,
            a.package_db_progress is None,
            a.baseline_phase@ == "scanning"@,
            a.data_dir@ == "/root/_playground/rust/dev/chamon/data"@,
            a.config.title@ == "CHAMON - File change Monitor"@,
            a.config.baseline.content_size_limit == 102400,
    {
        App {
            config: Config::default(),
            data_dir: "/root/_playground/rust/dev/chamon/data".to_owned(),
            current_view: ViewMode::Baselines,
            should_quit: false,
            baselines: Vec::new(),
            selected_baseline: 0,
            active_baseline: 0,
            comparison_results: None,
            popup: None,
            creating_baseline: false,
            creating_initial: false,
            baseline_progress: Vec::new(),
            baseline_completed: Vec::new(),
            baseline_files_processed: 0,
            baseline_estimated_total: None,
            baseline_start_time: None,
            package_db_progress: None,
            baseline_phase: "scanning".to_owned(),
        }
    }

    /// Install a freshly loaded baseline list: sort it into display
    /// order, pick the active baseline — the newest delta, or the initial
    /// baseline when no delta exists — and mark exactly that row active.
    pub fn set_baselines(&mut self, items: Vec<BaselineItem>)
        requires
            forall|j: int| 0 <= j < items@.len() ==> !(#[trigger] items@[j]).is_active,
        ensures
            final(self).baselines@.len() == items@.len(),
            sorted_by(
                final(self).baselines@,
                |a: BaselineItem, b: BaselineItem| spec_item_le(a, b),
            ),
            final(self).baselines@.map_values(|b: BaselineItem| spec_unmarked(b)).to_multiset()
                == items@.to_multiset(),
            (exists|i: int|
                0 <= i < final(self).baselines@.len() && !(#[trigger] final(self).baselines@[i]).is_initial) ==> (final(self).active_baseline < final(self).baselines@.len() && !final(self).baselines@[
                final(self).active_baseline as int
            ].is_initial && forall|j: int|
                0 <= j < final(self).active_baseline ==> (#[trigger] final(self).baselines@[j]).is_initial),
            !(exists|i: int|
                0 <= i < final(self).baselines@.len() && !(#[trigger] final(self).baselines@[i]).is_initial) ==> final(self).active_baseline == (if items@.len()
                > 0 {
                items@.len() - 1
            } else {
                0
            }),
            forall|j: int|
                0 <= j < final(self).baselines@.len() ==> ((#[trigger] final(self).baselines@[j]).is_active <==> j == final(self).active_baseline),
            final(self).selected_baseline == 0,
            final(self).config == old(self).config,
            final(self).current_view == old(self).current_view,
            final(self).popup == old(self).popup,
    {
        broadcast use vstd::seq_lib::group_to_multiset_ensures;

        let mut items = items;
        let ghost orig = items@;
        sort_baseline_items(&mut items);
        let ghost sorted = items@;
        proof {
            assert(sorted.to_multiset().len() == orig.to_multiset().len());
            assert(sorted.len() == orig.len());
            assert forall|p: int| 0 <= p < sorted.len() implies !(#[trigger] sorted[p]).is_active by {
                assert(sorted.contains(sorted[p]));
                assert(sorted.to_multiset().count(sorted[p]) > 0);
                assert(orig.to_multiset().count(sorted[p]) > 0);
                assert(orig.contains(sorted[p]));
                let j = choose|j: int| 0 <= j < orig.len() && orig[j] == sorted[p];
            }
            assert forall|p: int, q: int| 0 <= p < q < sorted.len() implies spec_item_le(
                #[trigger] sorted[p],
                #[trigger] sorted[q],
            ) by {
                let c = |a: BaselineItem, b: BaselineItem| spec_item_le(a, b);
                assert(sorted_by(sorted, c));
                assert(c(sorted[p], sorted[q]));
            }
        }
        let idx = initial_active_index(&items);
        self.baselines = items;
        self.active_baseline = idx;
        self.selected_baseline = 0;
        if idx < self.baselines.len() {
            self.baselines[idx].is_active = true;
        }
        proof {
            let fin = self.baselines@;
            if idx < sorted.len() {
                assert(fin == sorted.update(
                    idx as int,
                    BaselineItem { is_active: true, ..sorted[idx as int] },
                ));
            } else {
                assert(fin == sorted);
                assert(sorted.len() == 0);
            }
            assert forall|p: int| 0 <= p < fin.len() implies spec_unmarked(#[trigger] fin[p])
                == sorted[p] by {
                assert(!sorted[p].is_active);
            }
            assert(fin.map_values(|b: BaselineItem| spec_unmarked(b)) =~= sorted);
            assert forall|p: int, q: int| 0 <= p < q < fin.len() implies spec_item_le(
                #[trigger] fin[p],
                #[trigger] fin[q],
            ) by {
                assert(spec_item_le(sorted[p], sorted[q]));
                assert(fin[p].is_initial == sorted[p].is_initial && fin[p].version
                    == sorted[p].version);
                assert(fin[q].is_initial == sorted[q].is_initial && fin[q].version
                    == sorted[q].version);
            }
            assert(sorted_by(fin, |a: BaselineItem, b: BaselineItem| spec_item_le(a, b))) by {
                let c = |a: BaselineItem, b: BaselineItem| spec_item_le(a, b);
                assert forall|p: int, q: int| 0 <= p < q < fin.len() implies c(
                    #[trigger] fin[p],
                    #[trigger] fin[q],
                ) by {
                    assert(spec_item_le(fin[p], fin[q]));
                }
            }
            assert forall|i: int|
                0 <= i < fin.len() implies ((#[trigger] fin[i]).is_initial
                == sorted[i].is_initial) by {}
        }
    }

    /// Ask for confirmation before deleting the selected baseline. With
    /// nothing selected, nothing happens.
    pub fn show_delete_confirmation(&mut self)
        ensures
            old(self).selected_baseline < old(self).baselines@.len() ==> (match final(self).popup {
                Some(p) => p@ == (PopupView {
                    title: "Delete Baseline"@,
                    popup_type: PopupTypeView::Confirm {
                        message: "Delete baseline: "@ + old(self).baselines@[
                            old(self).selected_baseline as int
                        ].version@ + "?"@,
                        selected: 0usize,
                        action: PopupActionView::DeleteBaseline {
                            version: old(self).baselines@[
                                old(self).selected_baseline as int
                            ].version@,
                        },
                    },
                }),
                None => false,
            }),
            old(self).selected_baseline >= old(self).baselines@.len() ==> *final(self) == *old(self),
            final(self).baselines == old(self).baselines,
            final(self).selected_baseline == old(self).selected_baseline,
            final(self).current_view == old(self).current_view,
            final(self).should_quit == old(self).should_quit,
    {
        if self.selected_baseline < self.baselines.len() {
            let version = self.baselines[self.selected_baseline].version.clone();
            let mut msg = String::from_str("Delete baseline: ");
            msg.append(version.as_str());
            msg.append("?");
            self.popup = Some(
                Popup::confirm(
                    "Delete Baseline".to_owned(),
                    msg,
                    PopupAction::DeleteBaseline { version },
                ),
            );
        }
    }

    /// Move a confirmation popup's selection one step towards yes.
    pub fn popup_move_left(&mut self)
        ensures
            final(self).popup == (match old(self).popup {
                Some(
                    Popup {
                        title,
                        popup_type: PopupType::Confirm { message, selected, action },
                    },
                ) => Some(
                    Popup {
                        title,
                        popup_type: PopupType::Confirm {
                            message,
                            selected: if selected > 0 {
                                (selected - 1) as usize
                            } else {
                                selected
                            },
                            action,
                        },
                    },
                ),
                other => other,
            }),
            Self::same_non_progress(*final(self), *old(self)),
            final(self).creating_baseline == old(self).creating_baseline,
            final(self).creating_initial == old(self).creating_initial,
            final(self).baseline_progress == old(self).baseline_progress,
    {
        let cur = self.popup.take();
        self.popup = match cur {
            Some(Popup { title, popup_type: PopupType::Confirm { message, selected, action } }) => {
                Some(
                    Popup {
                        title,
                        popup_type: PopupType::Confirm {
                            message,
                            selected: if selected > 0 {
                                selected - 1
                            } else {
                                selected
                            },
                            action,
                        },
                    },
                )
            },
            other => other,
        };
    }

    /// Move a confirmation popup's selection one step towards no.
    pub fn popup_move_right(&mut self)
        ensures
            final(self).popup == (match old(self).popup {
                Some(
                    Popup {
                        title,
                        popup_type: PopupType::Confirm { message, selected, action },
                    },
                ) => Some(
                    Popup {
                        title,
                        popup_type: PopupType::Confirm {
                            message,
                            selected: if selected < 1 {
                                (selected + 1) as usize
                            } else {
                                selected
                            },
                            action,
                        },
                    },
                ),
                other => other,
            }),
            Self::same_non_progress(*final(self), *old(self)),
            final(self).creating_baseline == old(self).creating_baseline,
            final(self).creating_initial == old(self).creating_initial,
            final(self).baseline_progress == old(self).baseline_progress,
    {
        let cur = self.popup.take();
        self.popup = match cur {
            Some(Popup { title, popup_type: PopupType::Confirm { message, selected, action } }) => {
                Some(
                    Popup {
                        title,
                        popup_type: PopupType::Confirm {
                            message,
                            selected: if selected < 1 {
                                selected + 1
                            } else {
                                selected
                            },
                            action,
                        },
                    },
                )
            },
            other => other,
        };
    }

    /// Dismiss any popup.
    pub fn popup_cancel(&mut self)
        ensures
            final(self).popup is None,
            Self::same_non_progress(*final(self), *old(self)),
            final(self).creating_baseline == old(self).creating_baseline,
            final(self).creating_initial == old(self).creating_initial,
    {
        self.popup = None;
    }

    /// Remove the baseline with this version from the list, keeping the
    /// selection in range.
    fn delete_baseline(&mut self, version: &str)
        ensures
            final(self).baselines@ == old(self).baselines@.filter(
                |b: BaselineItem| b.version@ != version@,
            ),
            final(self).selected_baseline == (if old(self).selected_baseline >= final(self).baselines@.len() && final(self).baselines@.len() > 0 {
                (final(self).baselines@.len() - 1) as usize
            } else {
                old(self).selected_baseline
            }),
            final(self).popup == old(self).popup,
            final(self).current_view == old(self).current_view,
            final(self).config == old(self).config,
            final(self).creating_baseline == old(self).creating_baseline,
    {
        broadcast use vstd::prelude::Seq::lemma_filter_push;

        let ghost pred = |b: BaselineItem| b.version@ != version@;
        let n = self.baselines.len();
        let mut kept: Vec<BaselineItem> = Vec::new();
        let mut i: usize = 0;
        proof {
            assert(old(self).baselines@.subrange(0, 0).filter(pred) =~= kept@);
        }
        while i < n
            invariant
                n == self.baselines@.len(),
                self.baselines == old(self).baselines,
                i <= n,
                kept@ == old(self).baselines@.subrange(0, i as int).filter(pred),
                pred == (|b: BaselineItem| b.version@ != version@),
            decreases n - i,
        {
            let ghost sub1 = old(self).baselines@.subrange(0, i + 1);
            proof {
                broadcast use vstd::prelude::Seq::lemma_filter_push;

                assert(sub1.drop_last() =~= old(self).baselines@.subrange(0, i as int));
                assert(sub1 =~= sub1.drop_last().push(old(self).baselines@[i as int]));
            }
            let b = &self.baselines[i];
            if !str_eq(b.version.as_str(), version) {
                let copied = BaselineItem {
                    version: b.version.clone(),
                    file_count: b.file_count,
                    is_initial: b.is_initial,
                    is_active: b.is_active,
                };
                proof {
                    assert(copied == old(self).baselines@[i as int]);
                }
                kept.push(copied);
            }
            i += 1;
        }
        proof {
            assert(old(self).baselines@.subrange(0, n as int) =~= old(self).baselines@);
        }
        self.baselines = kept;
        let len = self.baselines.len();
        if self.selected_baseline >= len && len > 0 {
            self.selected_baseline = len - 1;
        }
    }

    /// Act on the popup: a confirmation answered yes performs its action;
    /// anything else is merely dismissed.
    pub fn popup_confirm(&mut self)
        ensures
            final(self).popup is None,
            match old(self).popup {
                Some(p) => match p.popup_type {
                    PopupType::Confirm { selected, action, .. } => {
                        if selected == 0 {
                            match action {
                                PopupAction::DeleteBaseline { version } => {
                                    &&& final(self).baselines@ == old(self).baselines@.filter(
                                        |b: BaselineItem| b.version@ != version@,
                                    )
                                    &&& final(self).selected_baseline == (if old(self).selected_baseline >= final(self).baselines@.len() && final(self).baselines@.len() > 0 {
                                        (final(self).baselines@.len() - 1) as usize
                                    } else {
                                        old(self).selected_baseline
                                    })
                                },
                            }
                        } else {
                            final(self).baselines == old(self).baselines && final(self).selected_baseline == old(self).selected_baseline
                        }
                    },
                    _ => final(self).baselines == old(self).baselines && final(self).selected_baseline == old(self).selected_baseline,
                },
                None => final(self).baselines == old(self).baselines && final(self).selected_baseline == old(self).selected_baseline,
            },
            final(self).current_view == old(self).current_view,
            final(self).config == old(self).config,
            final(self).creating_baseline == old(self).creating_baseline,
    {
        let cur = self.popup.take();
        match cur {
            Some(p) => {
                match p.popup_type {
                    PopupType::Confirm { selected, action, .. } => {
                        if selected == 0 {
                            match action {
                                PopupAction::DeleteBaseline { version } => {
                                    self.delete_baseline(version.as_str());
                                },
                            }
                        }
                    },
                    _ => {},
                }
            },
            None => {},
        }
    }

    /// Move the baseline selection up one row.
    pub fn move_baseline_up(&mut self)
        ensures
            final(self).selected_baseline == (if old(self).selected_baseline > 0 {
                (old(self).selected_baseline - 1) as usize
            } else {
                0
            }),
            final(self).baselines == old(self).baselines,
            final(self).popup == old(self).popup,
            final(self).current_view == old(self).current_view,
    {
        if self.selected_baseline > 0 {
            self.selected_baseline -= 1;
        }
    }

    /// Move the baseline selection down one row.
    pub fn move_baseline_down(&mut self)
        ensures
            final(self).selected_baseline == (if old(self).selected_baseline + 1 < old(self).baselines@.len() {
                old(self).selected_baseline + 1
            } else {
                old(self).selected_baseline as int
            }),
            final(self).baselines == old(self).baselines,
            final(self).popup == old(self).popup,
            final(self).current_view == old(self).current_view,
    {
        let len = self.baselines.len();
        if len > 0 && self.selected_baseline < len - 1 {
            self.selected_baseline += 1;
        }
    }

    /// Cycle to the next tab.
    pub fn switch_to_next_tab(&mut self)
        ensures
            final(self).current_view == (match old(self).current_view {
                ViewMode::Dashboard => ViewMode::Changes,
                ViewMode::Changes => ViewMode::Baselines,
                ViewMode::Baselines => ViewMode::Dashboard,
            }),
            final(self).baselines == old(self).baselines,
            final(self).popup == old(self).popup,
            final(self).selected_baseline == old(self).selected_baseline,
    {
        self.current_view = match self.current_view {
            ViewMode::Dashboard => ViewMode::Changes,
            ViewMode::Changes => ViewMode::Baselines,
            ViewMode::Baselines => ViewMode::Dashboard,
        };
    }

    /// Cycle to the previous tab.
    pub fn switch_to_previous_tab(&mut self)
        ensures
            final(self).current_view == (match old(self).current_view {
                ViewMode::Dashboard => ViewMode::Baselines,
                ViewMode::Changes => ViewMode::Dashboard,
                ViewMode::Baselines => ViewMode::Changes,
            }),
            final(self).baselines == old(self).baselines,
            final(self).popup == old(self).popup,
            final(self).selected_baseline == old(self).selected_baseline,
    {
        self.current_view = match self.current_view {
            ViewMode::Dashboard => ViewMode::Baselines,
            ViewMode::Changes => ViewMode::Dashboard,
            ViewMode::Baselines => ViewMode::Changes,
        };
    }

    /// Show one view.
    pub fn set_view(&mut self, view: ViewMode)
        ensures
            final(self).current_view == view,
            final(self).baselines == old(self).baselines,
            final(self).popup == old(self).popup,
            final(self).selected_baseline == old(self).selected_baseline,
    {
        self.current_view = view;
    }

    /// The tab bar's labels and the views they select.
    pub fn get_tab_items(&self) -> (r: Vec<(String, ViewMode)>)
        ensures
            r@.len() == 3,
            r@[0].0@ == "DASHBOARD"@ && r@[0].1 == ViewMode::Dashboard,
            r@[1].0@ == "CHANGES"@ && r@[1].1 == ViewMode::Changes,
            r@[2].0@ == "BASELINES"@ && r@[2].1 == ViewMode::Baselines,
    {
        let r: Vec<(String, ViewMode)> = vec![
            ("DASHBOARD".to_owned(), ViewMode::Dashboard),
            ("CHANGES".to_owned(), ViewMode::Changes),
            ("BASELINES".to_owned(), ViewMode::Baselines),
        ];
        r
    }

    /// Begin creating the initial baseline: refuse with an error popup
    /// when one already exists, else reset all progress state and mark a
    /// creation as running. The caller drives the scan itself and feeds
    /// the resulting progress updates back in.
    pub fn create_initial_baseline(&mut self)
        ensures
            (exists|i: int|
                0 <= i < old(self).baselines@.len() && (#[trigger] old(self).baselines@[i]).is_initial) ==> ({
                &&& match final(self).popup {
                    Some(p) => p@ == (PopupView {
                        title: "Initial Baseline Exists"@,
                        popup_type: PopupTypeView::Error {
                            message:
                                "An initial baseline already exists. Delete it first to create a new one."@,
                        },
                    }),
                    None => false,
                }
                &&& final(self).creating_baseline == old(self).creating_baseline
                &&& final(self).creating_initial == old(self).creating_initial
                &&& final(self).baseline_progress == old(self).baseline_progress
                &&& final(self).baseline_completed == old(self).baseline_completed
                &&& final(self).baseline_start_time == old(self).baseline_start_time
            }),
            !(exists|i: int|
                0 <= i < old(self).baselines@.len() && (#[trigger] old(self).baselines@[i]).is_initial) ==> ({
                &&& final(self).creating_baseline
                &&& final(self).creating_initial
                &&& final(self).baseline_progress@.len() == 0
                &&& final(self).baseline_completed@.len() == 0
                &&& final(self).baseline_files_processed == 0
                &&& final(self).baseline_estimated_total is None
                &&& final(self).baseline_start_time is Some
                &&& final(self).package_db_progress is None
                &&& final(self).baseline_phase@ == "scanning"@
                &&& final(self).popup == old(self).popup
            }),
            final(self).baselines == old(self).baselines,
            final(self).selected_baseline == old(self).selected_baseline,
            final(self).current_view == old(self).current_view,
            final(self).config == old(self).config,
            final(self).data_dir == old(self).data_dir,
    {
        let has_initial = has_initial_item(&self.baselines);
        if has_initial {
            self.popup = Some(
                Popup::error(
                    "Initial Baseline Exists".to_owned(),
                    "An initial baseline already exists. Delete it first to create a new one.".to_owned(),
                ),
            );
            return ;
        }
        self.creating_baseline = true;
        self.creating_initial = true;
        self.baseline_progress = Vec::new();
        self.baseline_completed = Vec::new();
        self.baseline_files_processed = 0;
        self.baseline_estimated_total = None;
        self.baseline_start_time = Some(epoch_now());
        self.package_db_progress = None;
        self.baseline_phase = "scanning".to_owned();
    }
}

} // verus!

verus! {

/// Find the first worker row with this name; the result matches
/// [`spec_find_worker`] on the rows' views.
fn find_worker_row(rows: &Vec<(String, usize, String)>, name: &str) -> (r: Option<usize>)
    ensures
        match r {
            Some(i) => spec_find_worker(
                rows@.map_values(|t: (String, usize, String)| row_view(t)),
                name@,
            ) == Some(i as int) && i < rows@.len(),
            None => spec_find_worker(
                rows@.map_values(|t: (String, usize, String)| row_view(t)),
                name@,
            ) is None,
        },
{
    let ghost mapped = rows@.map_values(|t: (String, usize, String)| row_view(t));
    let n = rows.len();
    let mut i: usize = 0;
    while i < n
        invariant
            n == rows@.len(),
            i <= n,
            mapped == rows@.map_values(|t: (String, usize, String)| row_view(t)),
            forall|j: int| 0 <= j < i ==> (#[trigger] mapped[j]).0 != name@,
        decreases n - i,
    {
        if str_eq(rows[i].0.as_str(), name) {
            proof {
                lemma_find_worker(mapped, name@);
                assert(mapped[i as int].0 == name@);
                match spec_find_worker(mapped, name@) {
                    Some(k) => {
                        if k < i {
                            assert(mapped[k].0 == name@);
                            assert(false);
                        }
                        if k > i {
                            assert(mapped[i as int].0 != name@);
                            assert(false);
                        }
                    },
                    None => {
                        assert(mapped[i as int].0 != name@);
                        assert(false);
                    },
                }
            }
            return Some(i);
        }
        proof {
            assert(mapped[i as int] == row_view(rows@[i as int]));
        }
        i += 1;
    }
    proof {
        lemma_find_worker(mapped, name@);
        if spec_find_worker(mapped, name@) is Some {
            let k = spec_find_worker(mapped, name@)->Some_0;
            assert(mapped[k].0 == name@);
            assert(false);
        }
    }
    None
}

impl App {
    /// Apply one progress update; see [`spec_apply_update`].
    pub fn apply_progress_update(&mut self, update: ProgressUpdate)
        ensures
            final(self).progress_view() == spec_apply_update(old(self).progress_view(), update),
            Self::same_non_progress(*final(self), *old(self)),
    {
        match update {
            ProgressUpdate::WorkerStarted { name } => {
                let ghost before = self.progress_view();
                self.baseline_progress.push((name, 0, String::new()));
                proof {
                    assert(self.progress_view().baseline_progress =~= before.baseline_progress.push(
                        (name@, 0usize, Seq::<char>::empty()),
                    ));
                    assert(self.progress_view() == spec_apply_update(
                        before,
                        ProgressUpdate::WorkerStarted { name },
                    ));
                }
            },
            ProgressUpdate::WorkerProgress { name, file_count, current_path } => {
                let ghost before = self.progress_view();
                let found = find_worker_row(&self.baseline_progress, name.as_str());
                match found {
                    Some(i) => {
                        self.baseline_progress[i] = (name, file_count, current_path);
                        proof {
                            assert(self.progress_view().baseline_progress
                                =~= before.baseline_progress.update(
                                i as int,
                                (name@, file_count, current_path@),
                            ));
                        }
                    },
                    None => {
                        self.baseline_progress.push((name, file_count, current_path));
                        proof {
                            assert(self.progress_view().baseline_progress
                                =~= before.baseline_progress.push(
                                (name@, file_count, current_path@),
                            ));
                        }
                    },
                }
            },
            ProgressUpdate::WorkerCompleted { name, file_count } => {
                let ghost before = self.progress_view();
                let ghost pred = |w: (Seq<char>, usize, Seq<char>)| w.0 != name@;
                let n = self.baseline_progress.len();
                let mut kept: Vec<(String, usize, String)> = Vec::new();
                let mut i: usize = 0;
                proof {
                    assert(before.baseline_progress.subrange(0, 0).filter(pred)
                        =~= kept@.map_values(|t: (String, usize, String)| row_view(t)));
                }
                while i < n
                    invariant
                        n == self.baseline_progress@.len(),
                        i <= n,
                        self == old(self),
                        before == self.progress_view(),
                        pred == (|w: (Seq<char>, usize, Seq<char>)| w.0 != name@),
                        kept@.map_values(|t: (String, usize, String)| row_view(t))
                            == before.baseline_progress.subrange(0, i as int).filter(pred),
                    decreases n - i,
                {
                    proof {
                        broadcast use vstd::prelude::Seq::lemma_filter_push;

                        let sub1 = before.baseline_progress.subrange(0, i + 1);
                        assert(sub1.drop_last() =~= before.baseline_progress.subrange(0, i as int));
                        assert(sub1 =~= sub1.drop_last().push(
                            before.baseline_progress[i as int],
                        ));
                        assert(before.baseline_progress[i as int] == row_view(
                            self.baseline_progress@[i as int],
                        ));
                    }
                    let row = &self.baseline_progress[i];
                    if !str_eq(row.0.as_str(), name.as_str()) {
                        let copied = (row.0.clone(), row.1, row.2.clone());
                        proof {
                            assert(row_view(copied) == before.baseline_progress[i as int]);
                        }
                        kept.push(copied);
                        proof {
                            assert(kept@.map_values(|t: (String, usize, String)| row_view(t))
                                =~= kept@.drop_last().map_values(
                                |t: (String, usize, String)| row_view(t),
                            ).push(row_view(kept@.last())));
                        }
                    }
                    i += 1;
                }
                proof {
                    assert(before.baseline_progress.subrange(0, n as int)
                        =~= before.baseline_progress);
                }
                self.baseline_progress = kept;
                self.baseline_completed.push((name, file_count));
                proof {
                    assert(self.progress_view().baseline_completed
                        =~= before.baseline_completed.push((name@, file_count)));
                }
            },
            ProgressUpdate::FilesProcessed { count } => {
                self.baseline_files_processed = count;
            },
            ProgressUpdate::PackageProgress { processed, total } => {
                self.package_db_progress = Some((processed, total));
            },
            ProgressUpdate::PhaseChanged { phase } => {
                self.baseline_phase = phase;
            },
            ProgressUpdate::BaselineCompleted { success, message } => {
                self.creating_baseline = false;
                self.creating_initial = false;
                if success {
                    self.popup = Some(Popup::info("Baseline Created".to_owned(), message));
                } else {
                    self.popup = Some(Popup::error("Baseline Creation Failed".to_owned(), message));
                }
            },
        }
    }

    /// Apply a batch of pending progress updates, in order; see
    /// [`spec_apply_updates`]. The caller drains its event channel into
    /// the batch.
    pub fn process_progress_updates(&mut self, updates: Vec<ProgressUpdate>)
        ensures
            final(self).progress_view() == spec_apply_updates(
                old(self).progress_view(),
                updates@,
            ),
            Self::same_non_progress(*final(self), *old(self)),
    {
        let ghost orig = updates@;
        let mut rest = updates;
        let n0 = rest.len();
        proof {
            assert(orig.len() == n0);
            assert(orig.subrange(0, 0) =~= Seq::<ProgressUpdate>::empty());
        }
        let mut k: usize = 0;
        loop
            invariant
                orig == updates@,
                orig.len() <= usize::MAX,
                k <= orig.len(),
                rest@ == orig.skip(k as int),
                self.progress_view() == spec_apply_updates(
                    old(self).progress_view(),
                    orig.subrange(0, k as int),
                ),
                Self::same_non_progress(*self, *old(self)),
            decreases orig.len() - k,
        {
            if rest.len() == 0 {
                proof {
                    assert(orig.subrange(0, k as int) =~= orig);
                }
                return ;
            }
            let u = rest.remove(0);
            proof {
                assert(orig.skip(k as int)[0] == orig[k as int]);
                assert(u == orig[k as int]);
                assert(rest@ =~= orig.skip(k + 1));
                let sub1 = orig.subrange(0, k + 1);
                assert(sub1.drop_last() =~= orig.subrange(0, k as int));
                assert(sub1.last() == orig[k as int]);
            }
            self.apply_progress_update(u);
            k += 1;
        }
    }
}

} // verus!
