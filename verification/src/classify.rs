//! Classification of files into content-tracked and existence-only records.

use vstd::prelude::*;
use vstd::utf8::encode_utf8;
use crate::config::BaselineConfig;
use crate::config::PolicyView;
use crate::hashing::sha256_hex;
use crate::hashing::sha256_of;
use crate::hashing::spec_hex;
use crate::paths::remap_path;
use crate::paths::spec_remap;
use crate::strutil::contains_seq;
use crate::strutil::str_contains;
use crate::strutil::str_ends_with;
use crate::strutil::str_eq;
use crate::strutil::str_starts_with;

verus! {

/// Filesystem metadata of one regular file, as plain values: size in
/// bytes, modification time in epoch seconds, permission bits, owner and
/// group ids.
#[derive(Debug, Clone, Copy, PartialEq, Eq, Structural)]
pub struct FileMetadata {
    pub size: u64,
    pub modified: u64,
    pub permissions: u32,
    pub owner: u32,
    pub group: u32,
}

/// How one file is tracked: with its full text and checksum, or by
/// metadata alone.
#[derive(Debug, Clone)]
pub enum TrackMode {
    Content {
        checksum: String,
        content: String,
        size: u64,
        modified: u64,
        permissions: u32,
        owner: u32,
        group: u32,
    },
    Existence { size: u64, modified: u64, permissions: u32, owner: u32, group: u32 },
}

/// Mathematical model of a [`TrackMode`].
pub enum TrackModeView {
    Content {
        checksum: Seq<char>,
        content: Seq<char>,
        size: u64,
        modified: u64,
        permissions: u32,
        owner: u32,
        group: u32,
    },
    Existence { size: u64, modified: u64, permissions: u32, owner: u32, group: u32 },
}

impl View for TrackMode {
    type V = TrackModeView;

    open spec fn view(&self) -> TrackModeView {
        match self {
            TrackMode::Content { checksum, content, size, modified, permissions, owner, group } => {
                TrackModeView::Content {
                    checksum: checksum@,
                    content: content@,
                    size: *size,
                    modified: *modified,
                    permissions: *permissions,
                    owner: *owner,
                    group: *group,
                }
            },
            TrackMode::Existence { size, modified, permissions, owner, group } => {
                TrackModeView::Existence {
                    size: *size,
                    modified: *modified,
                    permissions: *permissions,
                    owner: *owner,
                    group: *group,
                }
            },
        }
    }
}

impl TrackModeView {
    /// The recorded size, in either mode.
    pub open spec fn size(self) -> u64 {
        match self {
            TrackModeView::Content { size, .. } => size,
            TrackModeView::Existence { size, .. } => size,
        }
    }

    /// The recorded modification time, in either mode.
    pub open spec fn modified(self) -> u64 {
        match self {
            TrackModeView::Content { modified, .. } => modified,
            TrackModeView::Existence { modified, .. } => modified,
        }
    }

    /// The recorded permission bits, in either mode.
    pub open spec fn permissions(self) -> u32 {
        match self {
            TrackModeView::Content { permissions, .. } => permissions,
            TrackModeView::Existence { permissions, .. } => permissions,
        }
    }
}

/// One tracked file: its logical path and how it is tracked.
#[derive(Debug, Clone)]
pub struct FileEntry {
    pub path: String,
    pub track_mode: TrackMode,
}

/// Mathematical model of a [`FileEntry`].
pub struct FileEntryView {
    pub path: Seq<char>,
    pub track_mode: TrackModeView,
}

impl View for FileEntry {
    type V = FileEntryView;

    open spec fn view(&self) -> FileEntryView {
        FileEntryView { path: self.path@, track_mode: self.track_mode@ }
    }
}

/// Index of the last occurrence of `c` in `s`, if any.
pub open spec fn spec_rfind(s: Seq<char>, c: char) -> Option<int>
    decreases s.len(),
{
    if s.len() == 0 {
        None
    } else if s[s.len() - 1] == c {
        Some(s.len() - 1)
    } else {
        spec_rfind(s.drop_last(), c)
    }
}

/// Find the last occurrence of `c` in `s`.
fn rfind(s: &str, c: char) -> (r: Option<usize>)
    ensures
        match r {
            Some(i) => spec_rfind(s@, c) == Some(i as int),
            None => spec_rfind(s@, c) is None,
        },
{
    let len = s.unicode_len();
    let mut end: usize = len;
    proof {
        assert(s@.subrange(0, len as int) =~= s@);
    }
    while end > 0
        invariant
            len == s@.len(),
            end <= len,
            spec_rfind(s@, c) == spec_rfind(s@.subrange(0, end as int), c),
        decreases end,
    {
        if s.get_char(end - 1) == c {
            proof {
                let sub = s@.subrange(0, end as int);
                assert(sub[sub.len() - 1] == c);
            }
            return Some(end - 1);
        }
        proof {
            let sub = s@.subrange(0, end as int);
            assert(sub.drop_last() =~= s@.subrange(0, end - 1));
        }
        end -= 1;
    }
    None
}

/// A found index lies in range and holds the sought character.
pub proof fn lemma_rfind_some(s: Seq<char>, c: char)
    requires
        spec_rfind(s, c) is Some,
    ensures
        0 <= spec_rfind(s, c)->Some_0 < s.len(),
        s[spec_rfind(s, c)->Some_0] == c,
    decreases s.len(),
{
    if s.len() > 0 && s[s.len() - 1] != c {
        lemma_rfind_some(s.drop_last(), c);
    }
}

/// The last path component of `p`: everything after the final `/`.
pub open spec fn spec_file_name(p: Seq<char>) -> Seq<char> {
    match spec_rfind(p, '/') {
        Some(i) => p.subrange(i + 1, p.len() as int),
        None => p,
    }
}

/// The extension suffix of the file named by `p`, dot included (`.so` for
/// `lib.so`), or nothing when the file name has no extension. A name whose
/// only dot is its first character, such as `.bashrc`, has no extension.
pub open spec fn spec_ext_suffix(p: Seq<char>) -> Option<Seq<char>> {
    let name = spec_file_name(p);
    match spec_rfind(name, '.') {
        Some(i) => if i > 0 {
            Some(name.subrange(i, name.len() as int))
        } else {
            None
        },
        None => None,
    }
}

/// Compute the extension suffix of the file named by `path`, dot included.
pub fn ext_suffix(path: &str) -> (r: Option<String>)
    ensures
        match r {
            Some(e) => spec_ext_suffix(path@) == Some(e@),
            None => spec_ext_suffix(path@) is None,
        },
{
    let len = path.unicode_len();
    let name: &str = match rfind(path, '/') {
        Some(i) => {
            proof {
                lemma_rfind_some(path@, '/');
            }
            let n = path.substring_char(i + 1, len);
            proof {
                assert(n@ =~= spec_file_name(path@));
            }
            n
        },
        None => path,
    };
    let nlen = name.unicode_len();
    match rfind(name, '.') {
        Some(i) => {
            if i > 0 {
                proof {
                    lemma_rfind_some(name@, '.');
                }
                let e = name.substring_char(i, nlen);
                proof {
                    assert(e@ =~= spec_ext_suffix(path@)->Some_0);
                }
                Some(e.to_owned())
            } else {
                None
            }
        },
        None => None,
    }
}

/// The wildcard extension entry marking versioned shared libraries.
pub open spec fn so_wildcard() -> Seq<char> {
    seq!['.', 's', 'o', '.', '*']
}

/// The substring whose presence marks a versioned shared library.
pub open spec fn so_marker() -> Seq<char> {
    seq!['.', 's', 'o', '.']
}

/// Whether the logical path falls under a directory tracked by existence
/// only.
pub open spec fn spec_in_existence_dir(logical: Seq<char>, dirs: Seq<Seq<char>>) -> bool {
    exists|i: int| 0 <= i < dirs.len() && (#[trigger] dirs[i]).is_prefix_of(logical)
}

/// Whether one extension entry matches: the wildcard matches a path
/// containing the versioned-shared-library marker; any other entry matches
/// as a suffix of the logical path or as the file's extension itself.
pub open spec fn spec_one_ext_matches(
    e: Seq<char>,
    logical: Seq<char>,
    ext_str: Seq<char>,
) -> bool {
    if e == so_wildcard() {
        contains_seq(logical, so_marker())
    } else {
        e.is_suffix_of(logical) || ext_str == e
    }
}

/// Whether the file's extension marks it for existence-only tracking. A
/// file without an extension never matches.
pub open spec fn spec_ext_matches(
    phys: Seq<char>,
    logical: Seq<char>,
    exts: Seq<Seq<char>>,
) -> bool {
    match spec_ext_suffix(phys) {
        Some(ext_str) => exists|i: int|
            0 <= i < exts.len() && spec_one_ext_matches(#[trigger] exts[i], logical, ext_str),
        None => false,
    }
}

/// Decide whether the file's extension marks it for existence-only
/// tracking.
fn ext_matches(path: &str, logical: &str, exts: &Vec<String>) -> (r: bool)
    ensures
        r == spec_ext_matches(path@, logical@, crate::config::seq_views(exts@)),
{
    let ext_opt = ext_suffix(path);
    match ext_opt {
        None => false,
        Some(ext_str) => {
            let n = exts.len();
            let mut i: usize = 0;
            while i < n
                invariant
                    n == exts@.len(),
                    i <= n,
                    spec_ext_suffix(path@) == Some(ext_str@),
                    forall|j: int|
                        0 <= j < i ==> !spec_one_ext_matches(
                            #[trigger] crate::config::seq_views(exts@)[j],
                            logical@,
                            ext_str@,
                        ),
                decreases n - i,
            {
                let e = &exts[i];
                proof {
                    reveal_strlit(".so.*");
                    assert(".so.*"@ =~= so_wildcard());
                    reveal_strlit(".so.");
                    assert(".so."@ =~= so_marker());
                }
                if str_eq(e.as_str(), ".so.*") {
                    if str_contains(logical, ".so.") {
                        proof {
                            assert(spec_one_ext_matches(
                                crate::config::seq_views(exts@)[i as int],
                                logical@,
                                ext_str@,
                            ));
                        }
                        return true;
                    }
                } else {
                    if str_ends_with(logical, e.as_str()) || str_eq(ext_str.as_str(), e.as_str()) {
                        proof {
                            assert(spec_one_ext_matches(
                                crate::config::seq_views(exts@)[i as int],
                                logical@,
                                ext_str@,
                            ));
                        }
                        return true;
                    }
                }
                i += 1;
            }
            false
        },
    }
}

/// Decide whether the logical path falls under a directory tracked by
/// existence only.
fn in_existence_dir(logical: &str, dirs: &Vec<String>) -> (r: bool)
    ensures
        r == spec_in_existence_dir(logical@, crate::config::seq_views(dirs@)),
{
    let n = dirs.len();
    let mut i: usize = 0;
    while i < n
        invariant
            n == dirs@.len(),
            i <= n,
            forall|j: int|
                0 <= j < i ==> !(#[trigger] crate::config::seq_views(dirs@)[j]).is_prefix_of(
                    logical@,
                ),
        decreases n - i,
    {
        if str_starts_with(logical, dirs[i].as_str()) {
            proof {
                assert(crate::config::seq_views(dirs@)[i as int].is_prefix_of(logical@));
            }
            return true;
        }
        i += 1;
    }
    false
}

/// Whether policy and metadata force existence-only tracking, before any
/// look at the file's bytes: an existence-only directory, a matching
/// extension, any execute permission bit, or a size above the limit.
pub open spec fn spec_existence_forced(
    meta: FileMetadata,
    phys: Seq<char>,
    logical: Seq<char>,
    cfg: PolicyView,
) -> bool {
    ||| spec_in_existence_dir(logical, cfg.existence_only_directories)
    ||| spec_ext_matches(phys, logical, cfg.existence_only_extensions)
    ||| (meta.permissions & 0o111u32) != 0
    ||| meta.size > cfg.content_size_limit
}

/// Decide whether policy and metadata force existence-only tracking; see
/// [`spec_existence_forced`].
pub fn existence_forced(
    meta: &FileMetadata,
    path: &str,
    logical: &str,
    config: &BaselineConfig,
) -> (r: bool)
    ensures
        r == spec_existence_forced(*meta, path@, logical@, config@),
{
    if in_existence_dir(logical, &config.existence_only_directories) {
        return true;
    }
    if ext_matches(path, logical, &config.existence_only_extensions) {
        return true;
    }
    if (meta.permissions & 0o111) != 0 {
        return true;
    }
    meta.size > config.content_size_limit
}

/// The track mode of a file with metadata `meta`, physical path `phys`,
/// logical path `logical`, and bytes decoding to `text` (nothing when the
/// bytes are not valid text or could not be read): content with the
/// decoded text and its checksum where nothing forces existence-only
/// tracking, existence otherwise.
pub open spec fn spec_track_mode(
    meta: FileMetadata,
    phys: Seq<char>,
    logical: Seq<char>,
    text: Option<Seq<char>>,
    cfg: PolicyView,
) -> TrackModeView {
    if spec_existence_forced(meta, phys, logical, cfg) || text is None {
        TrackModeView::Existence {
            size: meta.size,
            modified: meta.modified,
            permissions: meta.permissions,
            owner: meta.owner,
            group: meta.group,
        }
    } else {
        TrackModeView::Content {
            checksum: spec_hex(sha256_of(encode_utf8(text->0))),
            content: text->0,
            size: meta.size,
            modified: meta.modified,
            permissions: meta.permissions,
            owner: meta.owner,
            group: meta.group,
        }
    }
}

/// Build the tracked record of one file from its physical path, metadata
/// and decoded text, classifying it under the policy and keying it by its
/// remapped path.
pub fn scan_file(
    file_path: &str,
    scan_path: &str,
    remap_to: &str,
    meta: &FileMetadata,
    text: Option<&String>,
    config: &BaselineConfig,
) -> (e: FileEntry)
    ensures
        e.path@ == spec_remap(file_path@, scan_path@, remap_to@),
        e.track_mode@ == spec_track_mode(
            *meta,
            file_path@,
            spec_remap(file_path@, scan_path@, remap_to@),
            match text {
                Some(t) => Some(t@),
                None => None,
            },
            config@,
        ),
{
    let remapped = remap_path(file_path, scan_path, remap_to);
    let forced = existence_forced(meta, file_path, remapped.as_str(), config);
    let track_mode = if forced {
        TrackMode::Existence {
            size: meta.size,
            modified: meta.modified,
            permissions: meta.permissions,
            owner: meta.owner,
            group: meta.group,
        }
    } else {
        match text {
            None => TrackMode::Existence {
                size: meta.size,
                modified: meta.modified,
                permissions: meta.permissions,
                owner: meta.owner,
                group: meta.group,
            },
            Some(content) => {
                let checksum = sha256_hex(content.as_str().as_bytes());
                TrackMode::Content {
                    checksum,
                    content: content.clone(),
                    size: meta.size,
                    modified: meta.modified,
                    permissions: meta.permissions,
                    owner: meta.owner,
                    group: meta.group,
                }
            },
        }
    };
    FileEntry { path: remapped, track_mode }
}

/// A file whose name carries the `.so` extension is tracked by existence
/// only under any policy whose extension list holds `.so`, whatever its
/// size, permissions or contents.
pub proof fn lemma_so_suffix_forces_existence(
    meta: FileMetadata,
    phys: Seq<char>,
    logical: Seq<char>,
    text: Option<Seq<char>>,
    cfg: PolicyView,
)
    requires
        exists|i: int|
            0 <= i < cfg.existence_only_extensions.len() && #[trigger] cfg.existence_only_extensions[i]
                == seq!['.', 's', 'o'],
        seq!['.', 's', 'o'].is_suffix_of(logical),
        spec_ext_suffix(phys) is Some,
    ensures
        spec_track_mode(meta, phys, logical, text, cfg) == (TrackModeView::Existence {
            size: meta.size,
            modified: meta.modified,
            permissions: meta.permissions,
            owner: meta.owner,
            group: meta.group,
        }),
{
    let i = choose|i: int|
        0 <= i < cfg.existence_only_extensions.len() && #[trigger] cfg.existence_only_extensions[i]
            == seq!['.', 's', 'o'];
    let e = cfg.existence_only_extensions[i];
    assert(e != so_wildcard()) by {
        assert(e.len() == 3 && so_wildcard().len() == 5);
    }
    assert(spec_one_ext_matches(e, logical, spec_ext_suffix(phys)->Some_0));
    assert(spec_ext_matches(phys, logical, cfg.existence_only_extensions));
}

/// A file with any execute permission bit set is always tracked by
/// existence only, whatever its size, extension or contents.
pub proof fn lemma_exec_bit_forces_existence(
    meta: FileMetadata,
    phys: Seq<char>,
    logical: Seq<char>,
    text: Option<Seq<char>>,
    cfg: PolicyView,
)
    requires
        meta.permissions & 0o111u32 != 0,
    ensures
        spec_track_mode(meta, phys, logical, text, cfg) == (TrackModeView::Existence {
            size: meta.size,
            modified: meta.modified,
            permissions: meta.permissions,
            owner: meta.owner,
            group: meta.group,
        }),
{
}

} // verus!
