//! Translation of physical scan paths to logical, stable path identities.

use vstd::prelude::*;
use crate::config::seq_views;
use crate::config::BaselineConfig;
use crate::strutil::str_eq;
use crate::strutil::str_starts_with;

verus! {

/// The one-character path of the filesystem root.
pub open spec fn root_seq() -> Seq<char> {
    seq!['/']
}

/// Logical path that the physical path `phys` maps to when the tree under
/// `scan` is presented as if it lived under `remap`.
///
/// If `scan == remap` the path is unchanged. Otherwise the `scan` prefix is
/// stripped, one leading separator of the remainder is trimmed, and the
/// remainder is attached under `remap`. Paths not prefixed by `scan` pass
/// through unchanged.
pub open spec fn spec_remap(phys: Seq<char>, scan: Seq<char>, remap: Seq<char>) -> Seq<char> {
    if scan == remap {
        phys
    } else if scan.is_prefix_of(phys) {
        let rest = phys.subrange(scan.len() as int, phys.len() as int);
        let rem = if rest.len() > 0 && rest[0] == '/' {
            rest.subrange(1, rest.len() as int)
        } else {
            rest
        };
        if rem.len() == 0 {
            remap
        } else if remap == root_seq() {
            root_seq() + rem
        } else {
            remap + root_seq() + rem
        }
    } else {
        phys
    }
}

/// Whether `s` is exactly the root path `/`.
pub fn is_root(s: &str) -> (r: bool)
    ensures
        r == (s@ == root_seq()),
{
    let l = s.unicode_len();
    if l == 1 && s.get_char(0) == '/' {
        proof {
            assert(s@ =~= root_seq());
        }
        true
    } else {
        proof {
            if s@ == root_seq() {
                assert(s@.len() == 1);
                assert(s@[0] == '/');
            }
        }
        false
    }
}

/// Remap a physical path to its logical identity; see [`spec_remap`].
pub fn remap_path(physical_path: &str, scan_path: &str, remap_to: &str) -> (r: String)
    ensures
        r@ == spec_remap(physical_path@, scan_path@, remap_to@),
{
    if str_eq(scan_path, remap_to) {
        return physical_path.to_owned();
    }
    if !str_starts_with(physical_path, scan_path) {
        return physical_path.to_owned();
    }
    let plen = physical_path.unicode_len();
    let slen = scan_path.unicode_len();
    let rest = physical_path.substring_char(slen, plen);
    let restlen = rest.unicode_len();
    let rem = if restlen > 0 && rest.get_char(0) == '/' {
        let rem = physical_path.substring_char(slen + 1, plen);
        proof {
            assert(rem@ =~= rest@.subrange(1, rest@.len() as int));
        }
        rem
    } else {
        rest
    };
    if rem.unicode_len() == 0 {
        remap_to.to_owned()
    } else if is_root(remap_to) {
        proof {
            reveal_strlit("/");
            assert("/"@ =~= root_seq());
        }
        let mut out = String::from_str("/");
        out.append(rem);
        out
    } else {
        proof {
            reveal_strlit("/");
            assert("/"@ =~= root_seq());
        }
        let mut out = remap_to.to_owned();
        out.append("/");
        out.append(rem);
        out
    }
}

/// `s` with every trailing `/` removed.
pub open spec fn spec_trim_trailing_slashes(s: Seq<char>) -> Seq<char>
    decreases s.len(),
{
    if s.len() > 0 && s[s.len() - 1] == '/' {
        spec_trim_trailing_slashes(s.drop_last())
    } else {
        s
    }
}

/// Remove every trailing `/` from `s`.
pub fn trim_trailing_slashes(s: &str) -> (r: String)
    ensures
        r@ == spec_trim_trailing_slashes(s@),
{
    let len = s.unicode_len();
    let mut end: usize = len;
    proof {
        assert(s@.subrange(0, len as int) =~= s@);
    }
    while end > 0 && s.get_char(end - 1) == '/'
        invariant
            len == s@.len(),
            end <= len,
            spec_trim_trailing_slashes(s@) == spec_trim_trailing_slashes(
                s@.subrange(0, end as int),
            ),
        decreases end,
    {
        proof {
            let sub = s@.subrange(0, end as int);
            assert(sub.drop_last() =~= s@.subrange(0, end - 1));
        }
        end -= 1;
    }
    let r = s.substring_char(0, end);
    proof {
        assert(r@ =~= s@.subrange(0, end as int));
    }
    r.to_owned()
}

/// The scan root, normalised: `/` stays itself, anything else loses its
/// trailing separators.
pub open spec fn spec_normalize_scan_path(s: Seq<char>) -> Seq<char> {
    if s == root_seq() {
        s
    } else {
        spec_trim_trailing_slashes(s)
    }
}

/// The remap target, normalised: empty defaults to the normalised scan
/// root, `/` stays itself, anything else loses its trailing separators.
pub open spec fn spec_normalize_remap_to(r: Seq<char>, scan_norm: Seq<char>) -> Seq<char> {
    if r.len() == 0 {
        scan_norm
    } else if r == root_seq() {
        r
    } else {
        spec_trim_trailing_slashes(r)
    }
}

/// Normalise the scan root; see [`spec_normalize_scan_path`].
pub fn normalize_scan_path(s: &str) -> (r: String)
    ensures
        r@ == spec_normalize_scan_path(s@),
{
    if is_root(s) {
        s.to_owned()
    } else {
        trim_trailing_slashes(s)
    }
}

/// Normalise the remap target against the normalised scan root; see
/// [`spec_normalize_remap_to`].
pub fn normalize_remap_to(r: &str, scan_norm: &str) -> (out: String)
    ensures
        out@ == spec_normalize_remap_to(r@, scan_norm@),
{
    if r.unicode_len() == 0 {
        scan_norm.to_owned()
    } else if is_root(r) {
        r.to_owned()
    } else {
        trim_trailing_slashes(r)
    }
}

/// Whether the remapped form of `phys` falls under one of the excluded
/// directory prefixes.
pub open spec fn spec_should_exclude(
    phys: Seq<char>,
    scan: Seq<char>,
    remap: Seq<char>,
    excludes: Seq<Seq<char>>,
) -> bool {
    exists|i: int|
        0 <= i < excludes.len() && (#[trigger] excludes[i]).is_prefix_of(
            spec_remap(phys, scan, remap),
        )
}

/// Decide whether a path is excluded from scanning, by checking its
/// remapped form against the policy's excluded directory prefixes.
pub fn should_exclude(
    physical_path: &str,
    scan_path: &str,
    remap_to: &str,
    config: &BaselineConfig,
) -> (r: bool)
    ensures
        r == spec_should_exclude(
            physical_path@,
            scan_path@,
            remap_to@,
            seq_views(config.exclude_directories@),
        ),
{
    let remapped = remap_path(physical_path, scan_path, remap_to);
    let n = config.exclude_directories.len();
    let mut i: usize = 0;
    while i < n
        invariant
            n == config.exclude_directories@.len(),
            i <= n,
            remapped@ == spec_remap(physical_path@, scan_path@, remap_to@),
            forall|j: int|
                0 <= j < i ==> !(#[trigger] seq_views(config.exclude_directories@)[j]).is_prefix_of(
                    remapped@,
                ),
        decreases n - i,
    {
        if str_starts_with(remapped.as_str(), config.exclude_directories[i].as_str()) {
            proof {
                assert(seq_views(config.exclude_directories@)[i as int].is_prefix_of(remapped@));
            }
            return true;
        }
        i += 1;
    }
    false
}

} // verus!

