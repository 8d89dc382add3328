//! Results of a directory scan: grouping the entries found under their parent directory,
//! and deciding how each selected file is to be read.

use vstd::prelude::*;
use vstd::string::StringExecFns;
use crate::order::entry_lt;
use crate::paths::within;
use crate::sort::{insertion_sort, reverse_vec, sort_by};
use crate::text::{chars_of, lowercase_of, str_eq, to_lowercase};
use crate::types::CanonicalPath;
use crate::order::chars_lt;

verus! {

/// An entry found by a directory scan.
#[derive(Debug, Clone)]
pub struct DirectoryEntry {
    /// The full canonical path to the entry
    pub path: CanonicalPath,
    /// Whether this is a directory
    pub is_dir: bool,
    /// The file/directory name
    pub name: String,
    /// Parent directory path (if any)
    pub parent: Option<CanonicalPath>,
}

/// Directories first, then by lowercase name.
pub open spec fn scan_entry_lt(a: DirectoryEntry, b: DirectoryEntry) -> bool {
    entry_lt(a.is_dir, lowercase_of(a.name@), b.is_dir, lowercase_of(b.name@))
}

/// The parent directories of the entries, each once, in the order they first appear.
pub open spec fn parents_in_order(entries: Seq<DirectoryEntry>) -> Seq<Seq<char>>
    decreases entries.len(),
{
    if entries.len() == 0 {
        Seq::empty()
    } else {
        let prev = parents_in_order(entries.drop_last());
        match entries.last().parent {
            Some(p) => if prev.contains(p@) {
                prev
            } else {
                prev.push(p@)
            },
            None => prev,
        }
    }
}

/// The entries whose parent is `p`, in order.
pub open spec fn children_of(entries: Seq<DirectoryEntry>, p: Seq<char>) -> Seq<DirectoryEntry>
    decreases entries.len(),
{
    if entries.len() == 0 {
        Seq::empty()
    } else {
        let prev = children_of(entries.drop_last(), p);
        match entries.last().parent {
            Some(q) => if q@ == p {
                prev.push(entries.last())
            } else {
                prev
            },
            None => prev,
        }
    }
}

/// The group of a parent: its entries sorted, directories first, then by lowercase name.
pub open spec fn sorted_children(entries: Seq<DirectoryEntry>, p: Seq<char>) -> Seq<DirectoryEntry> {
    sort_by(children_of(entries, p), |a: DirectoryEntry, b: DirectoryEntry| scan_entry_lt(a, b))
}

fn scan_entry_before(a: &DirectoryEntry, b: &DirectoryEntry) -> (r: bool)
    ensures
        r == scan_entry_lt(*a, *b),
{
    if a.is_dir && !b.is_dir {
        true
    } else if !a.is_dir && b.is_dir {
        false
    } else {
        let la = to_lowercase(a.name.as_str());
        let lb = to_lowercase(b.name.as_str());
        let ka = chars_of(la.as_str());
        let kb = chars_of(lb.as_str());
        chars_lt(&ka, &kb)
    }
}

fn find_key(keys: &Vec<CanonicalPath>, p: &CanonicalPath) -> (r: Option<usize>)
    ensures
        r matches Some(k) ==> k < keys@.len() && keys@[k as int]@ == p@,
        r is None ==> forall|k: int| 0 <= k < keys@.len() ==> keys@[k]@ != p@,
{
    for k in 0..keys.len()
        invariant
            forall|j: int| 0 <= j < k ==> keys@[j]@ != p@,
    {
        if str_eq(keys[k].as_path(), p.as_path()) {
            return Some(k);
        }
    }
    None
}

proof fn lemma_parents_distinct(entries: Seq<DirectoryEntry>)
    ensures
        forall|a: int, b: int|
            0 <= a < b < parents_in_order(entries).len() ==> parents_in_order(entries)[a]
                != parents_in_order(entries)[b],
    decreases entries.len(),
{
    if entries.len() > 0 {
        lemma_parents_distinct(entries.drop_last());
        let prev = parents_in_order(entries.drop_last());
        let cur = parents_in_order(entries);
        if let Some(p) = entries.last().parent {
            if !prev.contains(p@) {
                assert forall|a: int, b: int| 0 <= a < b < cur.len() implies cur[a] != cur[b] by {
                    if b == prev.len() && cur[a] == cur[b] {
                        assert(prev[a] == p@);
                        assert(prev.contains(p@));
                    }
                }
            }
        }
    }
}

/// Groups the entries under their parent directory (entries without one are left out);
/// each group is sorted, directories first, then by lowercase name. The groups come in the
/// order their parents first appear, each parent once.
pub fn build_tree_from_entries(entries: Vec<DirectoryEntry>) -> (r: Vec<(CanonicalPath, Vec<DirectoryEntry>)>)
    ensures
        r@.len() == parents_in_order(entries@).len(),
        forall|k: int|
            0 <= k < r@.len() ==> (#[trigger] r@[k]).0@ == parents_in_order(entries@)[k] && r@[k].1@
                == sorted_children(entries@, parents_in_order(entries@)[k]),
{
    let ghost s = entries@;
    let mut rev = reverse_vec(entries);
    let mut keys: Vec<CanonicalPath> = Vec::new();
    let mut groups: Vec<Vec<DirectoryEntry>> = Vec::new();
    let mut n: usize = 0;
    assert(s.len() <= usize::MAX) by {
        assert(rev@.len() == rev.len());
    }
    while rev.len() > 0
        invariant
            rev@.reverse() == s.skip(n as int),
            n <= s.len(),
            s.len() <= usize::MAX,
            keys@.len() == groups@.len(),
            keys@.len() == parents_in_order(s.take(n as int)).len(),
            forall|k: int| 0 <= k < keys@.len() ==> #[trigger] keys@[k]@ == parents_in_order(s.take(n as int))[k],
            forall|k: int|
                0 <= k < groups@.len() ==> #[trigger] groups@[k]@ == children_of(
                    s.take(n as int),
                    parents_in_order(s.take(n as int))[k],
                ),
            forall|q: Seq<char>|
                !parents_in_order(s.take(n as int)).contains(q) ==> #[trigger] children_of(s.take(n as int), q)
                    == Seq::<DirectoryEntry>::empty(),
        decreases rev@.len(),
    {
        let ghost r_old = rev@;
        let ghost before = s.take(n as int);
        let ghost pbefore = parents_in_order(before);
        let e = rev.pop().unwrap();
        let ghost after = s.take(n + 1);
        proof {
            assert(r_old.reverse()[0] == e);
            assert(s.skip(n as int)[0] == e);
            assert(rev@.reverse() =~= r_old.reverse().drop_first());
            assert(s.skip(n as int).drop_first() =~= s.skip(n + 1));
            assert(after.drop_last() =~= before);
            assert(after.last() == e);
        }
        match &e.parent {
            Some(p) => {
                let ghost pv = p@;
                match find_key(&keys, p) {
                    Some(k) => {
                        let mut g = groups.remove(k);
                        g.push(e);
                        groups.insert(k, g);
                        proof {
                            assert(pbefore[k as int] == pv);
                            assert(pbefore.contains(pv));
                            assert(parents_in_order(after) == pbefore);
                            assert forall|j: int| 0 <= j < groups@.len() implies #[trigger] groups@[j]@ == children_of(
                                after,
                                parents_in_order(after)[j],
                            ) by {
                                lemma_parents_distinct(before);
                            }
                            assert forall|q: Seq<char>| !parents_in_order(after).contains(q) implies #[trigger] children_of(after, q)
                                == Seq::<DirectoryEntry>::empty() by {
                                assert(children_of(after, q) == children_of(before, q));
                            }
                        }
                    },
                    None => {
                        let key = p.duplicate();
                        let mut g: Vec<DirectoryEntry> = Vec::new();
                        proof {
                            assert(!pbefore.contains(pv)) by {
                                if pbefore.contains(pv) {
                                    let j = choose|j: int| 0 <= j < pbefore.len() && pbefore[j] == pv;
                                    assert(keys@[j]@ == pv);
                                }
                            }
                            assert(children_of(before, pv) == Seq::<DirectoryEntry>::empty());
                        }
                        g.push(e);
                        keys.push(key);
                        groups.push(g);
                        proof {
                            assert(parents_in_order(after) == pbefore.push(pv));
                            assert forall|j: int| 0 <= j < groups@.len() implies #[trigger] groups@[j]@ == children_of(
                                after,
                                parents_in_order(after)[j],
                            ) by {
                                if j < pbefore.len() {
                                    assert(pbefore[j] != pv);
                                } else {
                                    assert(groups@[j]@ =~= seq![e]);
                                    assert(children_of(after, pv) =~= Seq::<DirectoryEntry>::empty().push(e));
                                }
                            }
                            assert forall|j: int| 0 <= j < keys@.len() implies #[trigger] keys@[j]@ == parents_in_order(after)[j] by {}
                            assert forall|q: Seq<char>| !parents_in_order(after).contains(q) implies #[trigger] children_of(after, q)
                                == Seq::<DirectoryEntry>::empty() by {
                                if q == pv {
                                    assert(parents_in_order(after)[pbefore.len() as int] == pv);
                                    assert(parents_in_order(after).contains(pv));
                                }
                                assert(forall|j: int| 0 <= j < pbefore.len() ==> parents_in_order(after)[j] == pbefore[j]);
                                if pbefore.contains(q) {
                                    let j = choose|j: int| 0 <= j < pbefore.len() && pbefore[j] == q;
                                    assert(parents_in_order(after)[j] == q);
                                }
                                assert(children_of(after, q) == children_of(before, q));
                            }
                        }
                    },
                }
            },
            None => {
                proof {
                    assert(parents_in_order(after) == pbefore);
                    assert forall|q: Seq<char>| #[trigger] children_of(after, q) == children_of(before, q) by {}
                }
            },
        }
        n += 1;
    }
    assert(s.take(n as int) =~= s);
    let ghost total = parents_in_order(s);
    let count = keys.len();
    let mut rkeys = reverse_vec(keys);
    let mut rgroups = reverse_vec(groups);
    let ghost keys_all = rkeys@.reverse();
    let ghost groups_all = rgroups@.reverse();
    let mut out: Vec<(CanonicalPath, Vec<DirectoryEntry>)> = Vec::new();
    let mut i: usize = 0;
    while i < count
        invariant
            count == total.len(),
            i <= count,
            rkeys@.len() == count - i,
            rgroups@.len() == count - i,
            forall|j: int| 0 <= j < count - i ==> #[trigger] rkeys@[j] == keys_all[count - 1 - j],
            forall|j: int| 0 <= j < count - i ==> #[trigger] rgroups@[j] == groups_all[count - 1 - j],
            keys_all.len() == count,
            groups_all.len() == count,
            forall|k: int| 0 <= k < count ==> #[trigger] keys_all[k]@ == total[k],
            forall|k: int| 0 <= k < count ==> #[trigger] groups_all[k]@ == children_of(s, total[k]),
            out@.len() == i,
            forall|k: int|
                0 <= k < i ==> (#[trigger] out@[k]).0@ == total[k] && out@[k].1@ == sorted_children(s, total[k]),
        decreases count - i,
    {
        let key = rkeys.pop().unwrap();
        let group = rgroups.pop().unwrap();
        assert(key == keys_all[i as int]);
        assert(group == groups_all[i as int]);
        let sorted = insertion_sort(
            group,
            scan_entry_before,
            Ghost(|a: DirectoryEntry, b: DirectoryEntry| scan_entry_lt(a, b)),
        );
        out.push((key, sorted));
        i += 1;
    }
    out
}

/// The token estimate of files of the given sizes, before saturation: a quarter of each size
/// that could be read, summed.
pub open spec fn raw_estimate(sizes: Seq<Option<u64>>) -> nat
    decreases sizes.len(),
{
    if sizes.len() == 0 {
        0
    } else {
        raw_estimate(sizes.drop_last()) + match sizes.last() {
            Some(n) => (n / 4) as nat,
            None => 0nat,
        }
    }
}

/// The token estimate of files of the given sizes: a quarter of each size that could be read
/// (`None`: it could not), summed, saturating at `usize::MAX`.
pub open spec fn sum_estimate(sizes: Seq<Option<u64>>) -> usize {
    if raw_estimate(sizes) > usize::MAX {
        usize::MAX
    } else {
        raw_estimate(sizes) as usize
    }
}

/// Estimates the tokens of the selected files from their sizes.
pub fn estimate_from_sizes(sizes: &[Option<u64>]) -> (r: usize)
    ensures
        r == sum_estimate(sizes@),
{
    let mut total: usize = 0;
    for i in 0..sizes.len()
        invariant
            total == sum_estimate(sizes@.take(i as int)),
    {
        assert(sizes@.take(i + 1).drop_last() =~= sizes@.take(i as int));
        assert(sizes@.take(i + 1).last() == sizes@[i as int]);
        match sizes[i] {
            Some(n) => {
                let q = n / 4;
                let part: usize = if q > usize::MAX as u64 { usize::MAX } else { q as usize };
                total = total.saturating_add(part);
            },
            None => {},
        }
    }
    assert(sizes@.take(sizes@.len() as int) =~= sizes@);
    total
}

/// How a selected file is to be read.
#[derive(Debug)]
pub enum ReadDecision {
    /// The file lies outside the root and is not read
    Refused(String),
    /// The file's metadata could not be had
    Unavailable(String),
    /// The file is read through a memory map
    MemoryMapped,
    /// The file is read into memory directly
    Direct,
}

/// The view of a read decision.
pub enum ReadView {
    /// Refused, with the message
    Refused(Seq<char>),
    /// No metadata, with the message
    Unavailable(Seq<char>),
    /// Memory map
    MemoryMapped,
    /// Direct read
    Direct,
}

/// The view of a read decision.
pub open spec fn read_view(d: ReadDecision) -> ReadView {
    match d {
        ReadDecision::Refused(m) => ReadView::Refused(m@),
        ReadDecision::Unavailable(m) => ReadView::Unavailable(m@),
        ReadDecision::MemoryMapped => ReadView::MemoryMapped,
        ReadDecision::Direct => ReadView::Direct,
    }
}

/// How a file is read: refused when outside the root; unavailable when its size could not be
/// had; through a memory map when larger than the threshold; directly otherwise.
pub open spec fn read_decision_of(path: Seq<char>, root: Seq<char>, size: Option<u64>, threshold: usize) -> ReadView {
    if !within(path, root) {
        ReadView::Refused("Security error: path traversal detected"@)
    } else {
        match size {
            None => ReadView::Unavailable(
                "Failed to get metadata for "@ + path + ": file may not exist or be inaccessible"@,
            ),
            Some(n) => if (if n > usize::MAX { usize::MAX as int } else { n as int }) > threshold {
                ReadView::MemoryMapped
            } else {
                ReadView::Direct
            },
        }
    }
}

/// Decides how a selected file is read, from its size (`None` when its metadata could not be had).
pub fn read_decision(path: &CanonicalPath, root: &CanonicalPath, size: Option<u64>, threshold: usize) -> (r: ReadDecision)
    ensures
        read_view(r) == read_decision_of(path@, root@, size, threshold),
{
    if !path.is_contained_within(root) {
        return ReadDecision::Refused(String::from_str("Security error: path traversal detected"));
    }
    match size {
        None => {
            let mut m = String::from_str("Failed to get metadata for ");
            crate::text::push_str(&mut m, path.as_path());
            crate::text::push_str(&mut m, ": file may not exist or be inaccessible");
            ReadDecision::Unavailable(m)
        },
        Some(n) => {
            let clamped: usize = if n > usize::MAX as u64 { usize::MAX } else { n as usize };
            if clamped > threshold {
                ReadDecision::MemoryMapped
            } else {
                ReadDecision::Direct
            }
        },
    }
}

} // verus!
