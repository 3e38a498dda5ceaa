//! The set of input files to pack into a FAT image.
//!
//! A `FileSet` maps well-formed virtual paths to byte contents. Paths are
//! unique under FAT's case folding; their ancestor directories are
//! implied, not listed.

use vstd::prelude::*;
use crate::paths::{check_path, fold_path, folded_equal, path_ancestors, valid_path};

verus! {

/// One input file: a virtual target path and its bytes.
pub struct FileEntry {
    pub path: String,
    pub content: Vec<u8>,
}

/// An ordered collection of input files with unique, well-formed paths.
pub struct FileSet {
    pub entries: Vec<FileEntry>,
}

/// Total byte count of the entries.
pub open spec fn total_bytes(s: Seq<FileEntry>) -> int
    decreases s.len(),
{
    if s.len() == 0 {
        0
    } else {
        total_bytes(s.drop_last()) + s.last().content@.len()
    }
}

/// The path-to-content map described by the entries, keyed by the
/// case-folded path (FAT resolution being case-insensitive).
pub open spec fn entry_map(s: Seq<FileEntry>) -> Map<Seq<char>, Seq<u8>>
    decreases s.len(),
{
    if s.len() == 0 {
        Map::empty()
    } else {
        entry_map(s.drop_last()).insert(fold_path(s.last().path@), s.last().content@)
    }
}

/// The union of the ancestor directories of all entry paths, each
/// ancestor named by its case-folded path.
pub open spec fn all_ancestors(s: Seq<FileEntry>) -> Set<Seq<char>> {
    Set::new(
        |a: Seq<char>|
            exists|k: int|
                0 <= k < s.len() && #[trigger] path_ancestors(fold_path(s[k].path@)).contains(
                    a,
                ),
    )
}

impl FileSet {
    /// Well-formed: every path is valid and no two paths coincide once
    /// case-folded (so no two entries can resolve to one FAT name).
    pub open spec fn wf(self) -> bool {
        &&& forall|k: int|
            0 <= k < self.entries@.len() ==> valid_path(#[trigger] self.entries@[k].path@)
        &&& forall|k: int, l: int|
            0 <= k < l < self.entries@.len() ==> fold_path(self.entries@[k].path@) != fold_path(
                self.entries@[l].path@,
            )
    }

    /// Whether some entry's path coincides with `p` once case-folded.
    pub open spec fn contains_path(self, p: Seq<char>) -> bool {
        exists|k: int|
            0 <= k < self.entries@.len() && #[trigger] fold_path(self.entries@[k].path@)
                == fold_path(p)
    }

    /// Total byte count of all contents.
    pub open spec fn spec_total(self) -> int {
        total_bytes(self.entries@)
    }

    /// The path-to-content map this set describes.
    pub open spec fn file_map(self) -> Map<Seq<char>, Seq<u8>> {
        entry_map(self.entries@)
    }

    /// Every ancestor directory implied by the paths.
    pub open spec fn dir_set(self) -> Set<Seq<char>> {
        all_ancestors(self.entries@)
    }

    /// Creates an empty file set.
    pub fn new() -> (r: FileSet)
        ensures
            r.wf(),
            r.entries@.len() == 0,
    {
        FileSet { entries: Vec::new() }
    }

    /// Adds one file. Returns `false`, leaving the set unchanged, when
    /// the path is not well-formed or coincides, case-folded, with one
    /// already present.
    pub fn add(&mut self, path: String, content: Vec<u8>) -> (r: bool)
        requires
            old(self).wf(),
        ensures
            final(self).wf(),
            r == (valid_path(path@) && !old(self).contains_path(path@)),
            r ==> final(self).entries@ == old(self).entries@.push(
                FileEntry { path, content },
            ),
            !r ==> *final(self) == *old(self),
    {
        if !check_path(path.as_str()) {
            return false;
        }
        let mut k: usize = 0;
        while k < self.entries.len()
            invariant
                old(self).wf(),
                valid_path(path@),
                *self == *old(self),
                0 <= k <= self.entries@.len(),
                forall|j: int|
                    0 <= j < k ==> fold_path(#[trigger] self.entries@[j].path@) != fold_path(
                        path@,
                    ),
            decreases self.entries@.len() - k,
        {
            if folded_equal(self.entries[k].path.as_str(), path.as_str()) {
                proof {
                    assert(fold_path(old(self).entries@[k as int].path@) == fold_path(path@));
                }
                return false;
            }
            k += 1;
        }
        self.entries.push(FileEntry { path, content });
        proof {
            let s = self.entries@;
            assert forall|k2: int, l: int| 0 <= k2 < l < s.len() implies fold_path(s[k2].path@)
                != fold_path(s[l].path@) by {
                if l == s.len() - 1 {
                    assert(fold_path(old(self).entries@[k2].path@) != fold_path(s[l].path@));
                }
            }
        }
        true
    }

    /// Sums the content lengths of all entries.
    pub fn total_size(&self) -> (r: u64)
        requires
            self.spec_total() <= u64::MAX,
        ensures
            r == self.spec_total(),
    {
        let mut sum: u64 = 0;
        let mut k: usize = 0;
        while k < self.entries.len()
            invariant
                0 <= k <= self.entries@.len(),
                sum == total_bytes(self.entries@.take(k as int)),
                self.spec_total() <= u64::MAX,
            decreases self.entries@.len() - k,
        {
            proof {
                lemma_total_bytes_take_step(self.entries@, k as int);
                lemma_total_bytes_take_le(self.entries@, k + 1);
            }
            sum = sum + self.entries[k].content.len() as u64;
            k += 1;
        }
        proof {
            assert(self.entries@.take(self.entries@.len() as int) =~= self.entries@);
        }
        sum
    }
}

/// The total byte count is never negative.
pub proof fn lemma_total_bytes_nonneg(s: Seq<FileEntry>)
    ensures
        total_bytes(s) >= 0,
    decreases s.len(),
{
    if s.len() > 0 {
        lemma_total_bytes_nonneg(s.drop_last());
    }
}

/// Adding the next entry adds its byte count.
pub proof fn lemma_total_bytes_take_step(s: Seq<FileEntry>, k: int)
    requires
        0 <= k < s.len(),
    ensures
        total_bytes(s.take(k + 1)) == total_bytes(s.take(k)) + s[k].content@.len(),
{
    assert(s.take(k + 1).drop_last() =~= s.take(k));
    assert(s.take(k + 1).last() == s[k]);
}

/// Contents are non-negative, so a prefix never exceeds the whole.
pub proof fn lemma_total_bytes_take_le(s: Seq<FileEntry>, k: int)
    requires
        0 <= k <= s.len(),
    ensures
        total_bytes(s.take(k)) <= total_bytes(s),
    decreases s.len() - k,
{
    if k == s.len() {
        assert(s.take(k) =~= s);
    } else {
        lemma_total_bytes_take_step(s, k);
        lemma_total_bytes_take_le(s, k + 1);
    }
}

/// Extending by the next entry inserts its mapping.
pub proof fn lemma_entry_map_take_step(s: Seq<FileEntry>, k: int)
    requires
        0 <= k < s.len(),
    ensures
        entry_map(s.take(k + 1)) == entry_map(s.take(k)).insert(
            fold_path(s[k].path@),
            s[k].content@,
        ),
{
    assert(s.take(k + 1).drop_last() =~= s.take(k));
    assert(s.take(k + 1).last() == s[k]);
}

/// Extending by the next entry unions in its ancestors.
pub proof fn lemma_all_ancestors_take_step(s: Seq<FileEntry>, k: int)
    requires
        0 <= k < s.len(),
    ensures
        all_ancestors(s.take(k + 1)) =~= all_ancestors(s.take(k)).union(
            path_ancestors(fold_path(s[k].path@)),
        ),
{
    let a1 = all_ancestors(s.take(k + 1));
    let a0 = all_ancestors(s.take(k));
    assert forall|a: Seq<char>| a1.contains(a) implies a0.union(
        path_ancestors(fold_path(s[k].path@)),
    ).contains(a) by {
        let j = choose|j: int|
            0 <= j < s.take(k + 1).len() && #[trigger] path_ancestors(
                fold_path(s.take(k + 1)[j].path@),
            ).contains(a);
        if j < k {
            assert(path_ancestors(fold_path(s.take(k)[j].path@)).contains(a));
        } else {
            assert(s.take(k + 1)[j] == s[k]);
        }
    }
    assert forall|a: Seq<char>| a0.union(path_ancestors(fold_path(s[k].path@))).contains(
        a,
    ) implies a1.contains(a) by {
        if a0.contains(a) {
            let j = choose|j: int|
                0 <= j < s.take(k).len() && #[trigger] path_ancestors(
                    fold_path(s.take(k)[j].path@),
                ).contains(a);
            assert(path_ancestors(fold_path(s.take(k + 1)[j].path@)).contains(a));
        } else {
            assert(path_ancestors(fold_path(s.take(k + 1)[k].path@)).contains(a));
        }
    }
}

/// With paths unique modulo folding, the entry map reads back exactly
/// each entry's content at that entry's folded path.
pub proof fn lemma_entry_map_lookup(s: Seq<FileEntry>, k: int)
    requires
        0 <= k < s.len(),
        forall|k2: int, l: int|
            0 <= k2 < l < s.len() ==> fold_path(s[k2].path@) != fold_path(s[l].path@),
    ensures
        entry_map(s).dom().contains(fold_path(s[k].path@)),
        entry_map(s)[fold_path(s[k].path@)] == s[k].content@,
    decreases s.len(),
{
    if k == s.len() - 1 {
    } else {
        assert(s.drop_last()[k] == s[k]);
        lemma_entry_map_lookup(s.drop_last(), k);
        assert(fold_path(s.last().path@) != fold_path(s[k].path@));
    }
}

} // verus!
