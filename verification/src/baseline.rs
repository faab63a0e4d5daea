//! Baseline snapshots: one immutable record of a file population's
//! observed state.

use vstd::prelude::*;
use crate::classify::FileEntry;
use crate::classify::FileEntryView;
use crate::clock::epoch_now;
use crate::clock::version_now;
use crate::filemap::FileMap;

verus! {

/// One immutable snapshot: when it was taken, a sortable version string,
/// the scanned and remapped roots, and the tracked files keyed by logical
/// path. `file_count` always equals the number of tracked files.
#[derive(Debug)]
pub struct Baseline {
    pub created_at: u64,
    pub version: String,
    pub scan_path: String,
    pub remap_to: String,
    pub file_count: usize,
    pub is_delta: bool,
    pub files: FileMap,
}

impl Baseline {
    /// Well-formedness: the files map is well formed and `file_count`
    /// equals the number of tracked files.
    pub open spec fn wf(&self) -> bool {
        &&& self.files.wf()
        &&& self.file_count == self.files@.dom().len()
    }

    /// An empty, non-delta snapshot of the given roots, stamped with the
    /// current time and a timestamp-derived version.
    pub fn new(scan_path: String, remap_to: String) -> (b: Baseline)
        ensures
            b.wf(),
            b.scan_path@ == scan_path@,
            b.remap_to@ == remap_to@,
            b.file_count == 0,
            !b.is_delta,
            b.files@ == Map::<Seq<char>, FileEntryView>::empty(),
    {
        let files = FileMap::new();
        proof {
            files.lemma_keys();
        }
        Baseline {
            created_at: epoch_now(),
            version: version_now(),
            scan_path,
            remap_to,
            file_count: 0,
            is_delta: false,
            files,
        }
    }

    /// Record a file under its logical path, replacing any record the path
    /// held, and keep `file_count` equal to the number of tracked files.
    pub fn add_file(&mut self, path: String, entry: FileEntry)
        requires
            old(self).wf(),
        ensures
            final(self).wf(),
            final(self).files@ == old(self).files@.insert(path@, entry@),
            final(self).created_at == old(self).created_at,
            final(self).version == old(self).version,
            final(self).scan_path == old(self).scan_path,
            final(self).remap_to == old(self).remap_to,
            final(self).is_delta == old(self).is_delta,
    {
        self.files.insert(path, entry);
        self.file_count = self.files.len();
    }
}

/// The name under which a snapshot is stored: the fixed initial-snapshot
/// name for a non-delta baseline, a version-stamped name for a delta.
pub open spec fn spec_baseline_filename(is_delta: bool, version: Seq<char>) -> Seq<char> {
    if is_delta {
        "baseline-"@ + version + ".json"@
    } else {
        "baseline-initial.json"@
    }
}

/// Compute the file name a snapshot is stored under; see
/// [`spec_baseline_filename`].
pub fn baseline_filename(is_delta: bool, version: &str) -> (r: String)
    ensures
        r@ == spec_baseline_filename(is_delta, version@),
{
    if is_delta {
        let mut s = String::from_str("baseline-");
        s.append(version);
        s.append(".json");
        s
    } else {
        "baseline-initial.json".to_owned()
    }
}

} // verus!
