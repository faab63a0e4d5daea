//! An insert-only mapping from logical paths to tracked file records,
//! modelled as a `Map` from character sequences to file-entry views.

use vstd::prelude::*;
use vstd::map_lib::lemma_union_insert_left;
use vstd::map_lib::lemma_union_insert_right;
use crate::classify::FileEntry;
use crate::classify::FileEntryView;
use crate::strutil::str_eq;

verus! {

/// The key views of a sequence of keyed entries, in order.
pub open spec fn entry_keys(s: Seq<(String, FileEntry)>) -> Seq<Seq<char>> {
    s.map_values(|p: (String, FileEntry)| p.0@)
}

/// No two entries share a key.
pub open spec fn keys_unique(s: Seq<(String, FileEntry)>) -> bool {
    forall|i: int, j: int|
        0 <= i < j < s.len() ==> (#[trigger] s[i].0@) != (#[trigger] s[j].0@)
}

/// The mapping that a sequence of keyed entries denotes; later entries win.
pub open spec fn entries_map(s: Seq<(String, FileEntry)>) -> Map<Seq<char>, FileEntryView>
    decreases s.len(),
{
    if s.len() == 0 {
        Map::empty()
    } else {
        entries_map(s.drop_last()).insert(s.last().0@, s.last().1@)
    }
}

/// The denoted mapping has a finite domain, holds exactly the entries'
/// keys, and, when keys are unique, maps each key to its entry's record.
pub proof fn lemma_entries_map(s: Seq<(String, FileEntry)>)
    ensures
        entries_map(s).dom().finite(),
        forall|k: Seq<char>|
            #[trigger] entries_map(s).contains_key(k) <==> exists|i: int|
                0 <= i < s.len() && (#[trigger] s[i].0@) == k,
        keys_unique(s) ==> forall|i: int|
            0 <= i < s.len() ==> entries_map(s).contains_key(#[trigger] s[i].0@)
                && entries_map(s)[s[i].0@] == s[i].1@,
        keys_unique(s) ==> entries_map(s).dom().len() == s.len(),
    decreases s.len(),
{
    if s.len() == 0 {
    } else {
        let pre = s.drop_last();
        lemma_entries_map(pre);
        assert forall|k: Seq<char>| #[trigger] entries_map(s).contains_key(k) implies exists|i: int|
            0 <= i < s.len() && (#[trigger] s[i].0@) == k by {
            if k == s.last().0@ {
                assert(s[s.len() - 1].0@ == k);
            } else {
                let i = choose|i: int| 0 <= i < pre.len() && (#[trigger] pre[i].0@) == k;
                assert(s[i].0@ == k);
            }
        }
        assert forall|k: Seq<char>|
            (exists|i: int| 0 <= i < s.len() && (#[trigger] s[i].0@) == k) implies #[trigger]
            entries_map(s).contains_key(k) by {
            let i = choose|i: int| 0 <= i < s.len() && (#[trigger] s[i].0@) == k;
            if i < s.len() - 1 {
                assert(pre[i].0@ == k);
            }
        }
        if keys_unique(s) {
            assert(keys_unique(pre));
            assert forall|i: int| 0 <= i < s.len() implies entries_map(s).contains_key(
                #[trigger] s[i].0@,
            ) && entries_map(s)[s[i].0@] == s[i].1@ by {
                if i < s.len() - 1 {
                    assert(pre[i].0@ == s[i].0@ && pre[i].1@ == s[i].1@);
                    assert(s[i].0@ != s[s.len() - 1].0@);
                }
            }
            assert(!entries_map(pre).contains_key(s.last().0@)) by {
                if entries_map(pre).contains_key(s.last().0@) {
                    let i = choose|i: int|
                        0 <= i < pre.len() && (#[trigger] pre[i].0@) == s.last().0@;
                    assert(s[i].0@ == s[s.len() - 1].0@);
                }
            }
        }
    }
}

/// Replacing the record at an existing key leaves the denoted mapping with
/// that key freshly inserted.
proof fn lemma_entries_map_update(s: Seq<(String, FileEntry)>, i: int, p: (String, FileEntry))
    requires
        keys_unique(s),
        0 <= i < s.len(),
        p.0@ == s[i].0@,
    ensures
        keys_unique(s.update(i, p)),
        entries_map(s.update(i, p)) == entries_map(s).insert(p.0@, p.1@),
    decreases s.len(),
{
    let t = s.update(i, p);
    assert forall|x: int, y: int| 0 <= x < y < t.len() implies (#[trigger] t[x].0@)
        != (#[trigger] t[y].0@) by {
        assert(s[x].0@ != s[y].0@);
    }
    if i == s.len() - 1 {
        assert(t.drop_last() =~= s.drop_last());
        assert(entries_map(t) =~= entries_map(s).insert(p.0@, p.1@));
    } else {
        let pre = s.drop_last();
        assert(keys_unique(pre));
        assert(pre[i].0@ == s[i].0@);
        lemma_entries_map_update(pre, i, p);
        assert(t.drop_last() =~= pre.update(i, p));
        assert(t.last() == s.last());
        assert(s[i].0@ != s[s.len() - 1].0@);
        assert(entries_map(t) =~= entries_map(s).insert(p.0@, p.1@));
    }
}

/// A mapping from logical paths to tracked file records, with unique keys.
#[derive(Debug)]
pub struct FileMap {
    entries: Vec<(String, FileEntry)>,
}

impl View for FileMap {
    type V = Map<Seq<char>, FileEntryView>;

    closed spec fn view(&self) -> Map<Seq<char>, FileEntryView> {
        entries_map(self.entries@)
    }
}

impl FileMap {
    /// Well-formedness: no two entries share a key.
    pub closed spec fn wf(&self) -> bool {
        keys_unique(self.entries@)
    }

    /// The key views, in insertion order.
    pub closed spec fn keys(&self) -> Seq<Seq<char>> {
        entry_keys(self.entries@)
    }

    /// A well-formed map has finitely many keys, one per entry, each
    /// distinct and mapped by the denoted mapping.
    pub proof fn lemma_keys(&self)
        requires
            self.wf(),
        ensures
            self@.dom().finite(),
            self.keys().len() == self@.dom().len(),
            forall|i: int, j: int|
                0 <= i < j < self.keys().len() ==> self.keys()[i] != self.keys()[j],
            forall|i: int|
                0 <= i < self.keys().len() ==> self@.contains_key(#[trigger] self.keys()[i]),
            forall|k: Seq<char>|
                #[trigger] self@.contains_key(k) ==> exists|i: int|
                    0 <= i < self.keys().len() && self.keys()[i] == k,
    {
        lemma_entries_map(self.entries@);
        assert forall|k: Seq<char>| #[trigger] self@.contains_key(k) implies exists|i: int|
            0 <= i < self.keys().len() && self.keys()[i] == k by {
            let i = choose|i: int|
                0 <= i < self.entries@.len() && (#[trigger] self.entries@[i].0@) == k;
            assert(self.keys()[i] == k);
        }
    }

    /// An empty map.
    pub fn new() -> (r: FileMap)
        ensures
            r.wf(),
            r@ == Map::<Seq<char>, FileEntryView>::empty(),
    {
        FileMap { entries: Vec::new() }
    }

    /// The number of tracked paths.
    pub fn len(&self) -> (n: usize)
        requires
            self.wf(),
        ensures
            n == self@.dom().len(),
    {
        proof {
            lemma_entries_map(self.entries@);
        }
        self.entries.len()
    }

    /// Insert a record under a key, replacing any record the key held.
    pub fn insert(&mut self, key: String, value: FileEntry)
        requires
            old(self).wf(),
        ensures
            final(self).wf(),
            final(self)@ == old(self)@.insert(key@, value@),
    {
        let n = self.entries.len();
        let mut i: usize = 0;
        while i < n
            invariant
                old(self).wf(),
                n == self.entries@.len(),
                i <= n,
                self == old(self),
                forall|j: int| 0 <= j < i ==> (#[trigger] self.entries@[j].0@) != key@,
            decreases n - i,
        {
            if str_eq(&self.entries[i].0, key.as_str()) {
                proof {
                    lemma_entries_map_update(self.entries@, i as int, (key, value));
                }
                self.entries[i] = (key, value);
                return ;
            }
            i += 1;
        }
        proof {
            let s = self.entries@;
            let t = s.push((key, value));
            assert(t.drop_last() =~= s);
            assert(forall|j: int| 0 <= j < s.len() ==> (#[trigger] s[j].0@) != key@);
            assert forall|x: int, y: int| 0 <= x < y < t.len() implies (#[trigger] t[x].0@)
                != (#[trigger] t[y].0@) by {
                if y < s.len() {
                    assert(s[x].0@ != s[y].0@);
                } else {
                    assert(t[x].0@ == s[x].0@ && t[y].0@ == key@);
                }
            }
        }
        self.entries.push((key, value));
    }

    /// Look up the record a key holds.
    pub fn get(&self, key: &str) -> (r: Option<&FileEntry>)
        requires
            self.wf(),
        ensures
            match r {
                Some(e) => self@.contains_key(key@) && e@ == self@[key@],
                None => !self@.contains_key(key@),
            },
    {
        proof {
            lemma_entries_map(self.entries@);
        }
        let n = self.entries.len();
        let mut i: usize = 0;
        while i < n
            invariant
                self.wf(),
                n == self.entries@.len(),
                i <= n,
                forall|j: int| 0 <= j < i ==> (#[trigger] self.entries@[j].0@) != key@,
            decreases n - i,
        {
            if str_eq(&self.entries[i].0, key) {
                proof {
                    lemma_entries_map(self.entries@);
                }
                return Some(&self.entries[i].1);
            }
            i += 1;
        }
        proof {
            if self@.contains_key(key@) {
                let j = choose|j: int|
                    0 <= j < self.entries@.len() && (#[trigger] self.entries@[j].0@) == key@;
            }
        }
        None
    }

    /// The entry at one position: its key and record.
    pub fn entry_at(&self, i: usize) -> (kv: &(String, FileEntry))
        requires
            self.wf(),
            i < self@.dom().len(),
        ensures
            kv.0@ == self.keys()[i as int],
            self@.contains_key(kv.0@),
            kv.1@ == self@[kv.0@],
    {
        proof {
            lemma_entries_map(self.entries@);
        }
        &self.entries[i]
    }

    /// Move every entry of `other` into `self`; a key present in both ends
    /// up with `other`'s record.
    pub fn merge_from(&mut self, other: FileMap)
        requires
            old(self).wf(),
            other.wf(),
        ensures
            final(self).wf(),
            final(self)@ == old(self)@.union_prefer_right(other@),
    {
        let mut rest = other;
        proof {
            assert(old(self)@.union_prefer_right(entries_map(rest.entries@)) == old(
                self,
            )@.union_prefer_right(rest@));
        }
        loop
            invariant
                self.wf(),
                keys_unique(rest.entries@),
                self@.union_prefer_right(entries_map(rest.entries@)) == old(
                    self,
                )@.union_prefer_right(other@),
            decreases rest.entries@.len(),
        {
            let ghost pre = rest.entries@;
            let popped = rest.entries.pop();
            match popped {
                None => {
                    proof {
                        assert(entries_map(rest.entries@) =~= Map::<Seq<char>,
                            FileEntryView,
                        >::empty());
                        assert(self@.union_prefer_right(
                            Map::<Seq<char>, FileEntryView>::empty(),
                        ) =~= self@);
                    }
                    return ;
                },
                Some(p) => {
                    proof {
                        assert(pre.drop_last() =~= rest.entries@);
                        assert(pre.last() == p);
                        assert forall|x: int, y: int|
                            0 <= x < y < rest.entries@.len() implies (#[trigger] rest.entries@[x].0@)
                            != (#[trigger] rest.entries@[y].0@) by {
                            assert(pre[x].0@ != pre[y].0@);
                        }
                        lemma_entries_map(rest.entries@);
                        assert(!entries_map(rest.entries@).contains_key(p.0@)) by {
                            if entries_map(rest.entries@).contains_key(p.0@) {
                                let j = choose|j: int|
                                    0 <= j < rest.entries@.len() && (#[trigger] rest.entries@[j].0@)
                                        == p.0@;
                                assert(pre[j].0@ == pre[pre.len() - 1].0@);
                            }
                        }
                        assert(entries_map(pre) == entries_map(rest.entries@).insert(p.0@, p.1@));
                        lemma_union_insert_right(self@, entries_map(rest.entries@), p.0@, p.1@);
                        lemma_union_insert_left(self@, entries_map(rest.entries@), p.0@, p.1@);
                    }
                    let (k, v) = p;
                    self.insert(k, v);
                },
            }
        }
    }
}

} // verus!
