//! Per-traversal aggregation state: one record per registered directory, with
//! direct (non-recursive) stats, the parent/child adjacency, and the direct
//! file lists. Totals saturate at the `u64` maximum instead of overflowing.

use vstd::prelude::*;
use vstd::pervasive::VecAdditionalExecFns;
use crate::types::ScanFile;
use crate::topfiles::sizes_of;

verus! {

/// `x` clamped to the `u64` range from above.
pub open spec fn cap64(x: int) -> int {
    if x > u64::MAX as int {
        u64::MAX as int
    } else {
        x
    }
}

/// Saturating addition on byte and entry counters.
pub fn sat_add64(a: u64, b: u64) -> (r: u64)
    ensures
        r as int == cap64(a + b),
{
    if b <= u64::MAX - a {
        a + b
    } else {
        u64::MAX
    }
}

/// The sum of a sequence of sizes.
pub open spec fn sum_u64(s: Seq<u64>) -> int
    decreases s.len(),
{
    if s.len() == 0 {
        0
    } else {
        sum_u64(s.drop_last()) + s.last()
    }
}

pub proof fn lemma_sum_u64_nonneg(s: Seq<u64>)
    ensures
        sum_u64(s) >= 0,
    decreases s.len(),
{
    if s.len() > 0 {
        lemma_sum_u64_nonneg(s.drop_last());
    }
}

pub proof fn lemma_sum_u64_remove(s: Seq<u64>, i: int)
    requires
        0 <= i < s.len(),
    ensures
        sum_u64(s.remove(i)) == sum_u64(s) - s[i],
    decreases s.len(),
{
    if i == s.len() - 1 {
        assert(s.remove(i) =~= s.drop_last());
    } else {
        assert(s.remove(i).drop_last() =~= s.drop_last().remove(i));
        assert(s.remove(i).last() == s.last());
        lemma_sum_u64_remove(s.drop_last(), i);
    }
}

pub proof fn lemma_sum_u64_insert(s: Seq<u64>, p: int, x: u64)
    requires
        0 <= p <= s.len(),
    ensures
        sum_u64(s.insert(p, x)) == sum_u64(s) + x,
    decreases s.len(),
{
    if p == s.len() {
        assert(s.insert(p, x) =~= s.push(x));
        assert(s.push(x).drop_last() =~= s);
    } else {
        assert(s.insert(p, x).drop_last() =~= s.drop_last().insert(p, x));
        assert(s.insert(p, x).last() == s.last());
        lemma_sum_u64_insert(s.drop_last(), p, x);
    }
}

/// The sum of the first `k` elements.
pub open spec fn sum_prefix(tr: Seq<int>, k: int) -> int
    decreases k,
{
    if k <= 0 {
        0
    } else {
        sum_prefix(tr, k - 1) + tr[k - 1]
    }
}

proof fn lemma_cap_add(a: int, b: int)
    requires
        a >= 0,
        b >= 0,
    ensures
        cap64(cap64(a) + cap64(b)) == cap64(a + b),
{
}

pub proof fn lemma_sum_prefix_frame(a: Seq<int>, b: Seq<int>, k: int)
    requires
        forall|j: int| 0 <= j < k ==> a[j] == b[j],
    ensures
        sum_prefix(a, k) == sum_prefix(b, k),
    decreases k,
{
    if k > 0 {
        lemma_sum_prefix_frame(a, b, k - 1);
    }
}

pub proof fn lemma_sum_prefix_update(tr: Seq<int>, p: int, v: int, k: int)
    requires
        0 <= p < k,
        k <= tr.len(),
    ensures
        sum_prefix(tr.update(p, v), k) == sum_prefix(tr, k) + v - tr[p],
    decreases k,
{
    if p == k - 1 {
        assert(forall|j: int| 0 <= j < k - 1 ==> tr.update(p, v)[j] == tr[j]);
        lemma_sum_prefix_frame(tr.update(p, v), tr, k - 1);
    } else {
        lemma_sum_prefix_update(tr, p, v, k - 1);
    }
}

/// The sum of `tr` over the members of `ch` that are at least `lo`.
pub open spec fn sum_from(tr: Seq<int>, ch: Seq<usize>, lo: int) -> int
    decreases ch.len(),
{
    if ch.len() == 0 {
        0
    } else {
        sum_from(tr, ch.drop_last(), lo) + if ch.last() as int >= lo {
            tr[ch.last() as int]
        } else {
            0
        }
    }
}

proof fn lemma_sum_from_empty_range(tr: Seq<int>, ch: Seq<usize>, lo: int)
    requires
        forall|k: int| 0 <= k < ch.len() ==> (ch[k] as int) < lo,
    ensures
        sum_from(tr, ch, lo) == 0,
    decreases ch.len(),
{
    if ch.len() > 0 {
        lemma_sum_from_empty_range(tr, ch.drop_last(), lo);
    }
}

proof fn lemma_sum_from_frame(a: Seq<int>, b: Seq<int>, ch: Seq<usize>, lo: int)
    requires
        forall|k: int|
            0 <= k < ch.len() && ch[k] as int >= lo ==> a[ch[k] as int] == b[ch[k] as int],
    ensures
        sum_from(a, ch, lo) == sum_from(b, ch, lo),
    decreases ch.len(),
{
    if ch.len() > 0 {
        lemma_sum_from_frame(a, b, ch.drop_last(), lo);
    }
}

/// Summing capped values instead of true values makes no difference once the
/// whole sum is capped: either every term is within range, or both sums are
/// at the cap already.
pub proof fn lemma_cap_sum_from(d: int, tr: Seq<int>, ct: Seq<int>, ch: Seq<usize>, lo: int)
    requires
        d >= 0,
        tr.len() == ct.len(),
        forall|j: int| 0 <= j < tr.len() ==> (#[trigger] tr[j]) >= 0 && ct[j] == cap64(tr[j]),
        forall|k: int| 0 <= k < ch.len() ==> ((#[trigger] ch[k]) as int) < tr.len(),
    ensures
        sum_from(tr, ch, lo) >= 0,
        sum_from(ct, ch, lo) >= 0,
        cap64(d + sum_from(tr, ch, lo)) == cap64(d + sum_from(ct, ch, lo)),
    decreases ch.len(),
{
    if ch.len() > 0 {
        let pre = ch.drop_last();
        let last = ch.last() as int;
        assert(forall|k: int| 0 <= k < pre.len() ==> pre[k] == ch[k]);
        let t: int = if last >= lo {
            tr[last]
        } else {
            0
        };
        let c: int = if last >= lo {
            ct[last]
        } else {
            0
        };
        assert(t >= 0 && c >= 0);
        lemma_cap_sum_from(d + t, tr, ct, pre, lo);
        let a = sum_from(tr, pre, lo);
        let b = sum_from(ct, pre, lo);
        if last >= lo && tr[last] > u64::MAX as int {
            assert(c == u64::MAX as int);
            assert(cap64(d + a + t) == u64::MAX as int);
            assert(cap64(d + b + c) == u64::MAX as int);
        }
    }
}

/// Lowering the bound from `lo + 1` to `lo` adds exactly the value at `lo`
/// when `lo` is a member (the list has no duplicates), and nothing otherwise.
proof fn lemma_sum_from_lower(tr: Seq<int>, ch: Seq<usize>, lo: int)
    requires
        forall|k1: int, k2: int| 0 <= k1 < k2 < ch.len() ==> ch[k1] != ch[k2],
        0 <= lo <= usize::MAX,
    ensures
        sum_from(tr, ch, lo) == sum_from(tr, ch, lo + 1) + if ch.contains(lo as usize) {
            tr[lo]
        } else {
            0
        },
    decreases ch.len(),
{
    if ch.len() > 0 {
        let pre = ch.drop_last();
        lemma_sum_from_lower(tr, pre, lo);
        if ch.last() == lo as usize {
            assert(!pre.contains(lo as usize)) by {
                if pre.contains(lo as usize) {
                    let k = choose|k: int| 0 <= k < pre.len() && pre[k] == lo as usize;
                    assert(ch[k] == ch[ch.len() - 1]);
                }
            }
            assert(ch.contains(lo as usize)) by {
                assert(ch[ch.len() - 1] == lo as usize);
            }
        } else {
            assert(pre.contains(lo as usize) == ch.contains(lo as usize)) by {
                if ch.contains(lo as usize) {
                    let k = choose|k: int| 0 <= k < ch.len() && ch[k] == lo as usize;
                    assert(ch[ch.len() - 1] != lo as usize);
                    assert(k != ch.len() - 1);
                    assert(pre[k] == lo as usize);
                }
                if pre.contains(lo as usize) {
                    let k = choose|k: int| 0 <= k < pre.len() && pre[k] == lo as usize;
                    assert(ch[k] == lo as usize);
                }
            }
        }
    }
}

/// Direct (non-recursive) per-directory counters.
pub struct DirStats {
    pub direct_bytes: u64,
    pub direct_files: u64,
    pub direct_dirs: u64,
}

/// One registered directory.
pub struct DirRec {
    pub path: String,
    pub parent: usize,
    pub stats: DirStats,
    pub children: Vec<usize>,
    pub files: Vec<ScanFile>,
}

/// The aggregation state of one traversal. `dirs[0]` is the traversal root;
/// every other record points to an earlier record as its parent, so the
/// adjacency is a tree rooted at index 0.
pub struct Aggregator {
    pub dirs: Vec<DirRec>,
}

/// The structural invariant: parents precede children, child lists are
/// strictly increasing and agree with the parent pointers, paths are
/// unique, and every counter equals (the capped) count of what it counts.
pub open spec fn wf_dirs(d: Seq<DirRec>) -> bool {
    &&& (forall|j: int|
            0 <= j < d.len() ==> {
                &&& (j == 0 ==> d[j].parent == 0)
                &&& (j >= 1 ==> (d[j].parent as int) < j)
                &&& (forall|k1: int, k2: int|
                    0 <= k1 < k2 < d[j].children@.len() ==> d[j].children@[k1]
                        < d[j].children@[k2])
                &&& (forall|k: int|
                    0 <= k < d[j].children@.len() ==> ((1 <= (#[trigger] d[j].children@[k]) as int
                        && (d[j].children@[k] as int) < d.len()) && (d[d[j].children@[k] as int].parent as int) == j))
                &&& d[j].stats.direct_dirs as int == cap64(d[j].children@.len() as int)
                &&& d[j].stats.direct_files as int == cap64(d[j].files@.len() as int)
                &&& d[j].stats.direct_bytes as int == cap64(sum_u64(sizes_of(d[j].files@)))
            })
        &&& (forall|j: int|
            1 <= j < d.len() ==> d[d[j].parent as int].children@.contains(j as usize))
        &&& (forall|i: int, j: int| 0 <= i < j < d.len() ==> d[i].path@ != d[j].path@)
}

/// After updating index `p` (below `i`), summing a strictly increasing child
/// list from bound `i` equals the old sum from bound `i + 1` plus the value
/// at `i` when `i` is a member.
proof fn lemma_sum_shift(ch: Seq<usize>, prev: Seq<int>, p: int, v: int, i: int)
    requires
        forall|k1: int, k2: int| 0 <= k1 < k2 < ch.len() ==> ch[k1] < ch[k2],
        forall|k: int| 0 <= k < ch.len() ==> ((#[trigger] ch[k]) as int) < prev.len(),
        0 <= p < i,
        i < prev.len(),
        i <= usize::MAX,
    ensures
        sum_from(prev.update(p, v), ch, i) == sum_from(prev, ch, i + 1) + if ch.contains(
            i as usize,
        ) {
            prev[i]
        } else {
            0
        },
{
    let cur = prev.update(p, v);
    assert(forall|k1: int, k2: int| 0 <= k1 < k2 < ch.len() ==> ch[k1] != ch[k2]);
    lemma_sum_from_lower(cur, ch, i);
    lemma_sum_from_frame(cur, prev, ch, i + 1);
    if ch.contains(i as usize) {
        assert(cur[i] == prev[i]);
    }
}

/// Folding the node at index `i` into its parent preserves the partial-sum
/// bookkeeping: after the update, every node's running total equals its own
/// direct value plus the totals of its children at index `i` or beyond.
/// The adjacency facts of [`wf_dirs`], flattened for direct instantiation.
proof fn lemma_wf_flat(d: Seq<DirRec>)
    requires
        wf_dirs(d),
    ensures
        forall|j: int, k1: int, k2: int|
            0 <= j < d.len() && 0 <= k1 < k2 < d[j].children@.len() ==> (
            #[trigger] d[j].children@[k1]) < (#[trigger] d[j].children@[k2]),
        forall|j: int, k: int|
            0 <= j < d.len() && 0 <= k < d[j].children@.len() ==> ((#[trigger] d[j].children@[k]) as int) < d.len() && (d[d[j].children@[k] as int].parent as int) == j,
        forall|i: int|
            1 <= i < d.len() ==> ((#[trigger] d[i].parent) as int) < i && d[d[i].parent as int].children@.contains(
                i as usize,
            ),
{
    assert forall|j: int, k1: int, k2: int|
        0 <= j < d.len() && 0 <= k1 < k2 < d[j].children@.len() implies (
    #[trigger] d[j].children@[k1]) < (#[trigger] d[j].children@[k2]) by {
        assert(0 <= j < d.len());
    }
    assert forall|j: int, k: int|
        0 <= j < d.len() && 0 <= k < d[j].children@.len() implies ((#[trigger] d[j].children@[k]) as int) < d.len() && (d[d[j].children@[k] as int].parent as int) == j by {
        assert(0 <= j < d.len());
    }
}

#[verifier::rlimit(100)]
proof fn lemma_fold_step(d: Seq<DirRec>, tru: Seq<int>, prev: Seq<int>, i: int)
    requires
        forall|j: int, k1: int, k2: int|
            0 <= j < d.len() && 0 <= k1 < k2 < d[j].children@.len() ==> (
            #[trigger] d[j].children@[k1]) < (#[trigger] d[j].children@[k2]),
        forall|j: int, k: int|
            0 <= j < d.len() && 0 <= k < d[j].children@.len() ==> ((#[trigger] d[j].children@[k]) as int) < d.len() && (d[d[j].children@[k] as int].parent as int) == j,
        1 <= i < d.len() ==> (d[i].parent as int) < i && d[d[i].parent as int].children@.contains(
            i as usize,
        ),
        prev.len() == d.len(),
        tru.len() == d.len(),
        1 <= i < d.len(),
        d.len() <= usize::MAX,
        forall|j: int|
            0 <= j < d.len() ==> (#[trigger] prev[j]) == tru[j] + sum_from(
                prev,
                d[j].children@,
                i + 1,
            ),
    ensures
        ({
            let p = d[i].parent as int;
            let cur = prev.update(p, prev[p] + prev[i]);
            forall|j: int|
                0 <= j < d.len() ==> (#[trigger] cur[j]) == tru[j] + sum_from(
                    cur,
                    d[j].children@,
                    i,
                )
        }),
{
    let p = d[i].parent as int;
    let cur = prev.update(p, prev[p] + prev[i]);
    assert(0 <= p < i);
    assert forall|j: int| 0 <= j < d.len() implies (#[trigger] cur[j]) == tru[j] + sum_from(
        cur,
        d[j].children@,
        i,
    ) by {
        let ch = d[j].children@;
        lemma_sum_shift(ch, prev, p, prev[p] + prev[i], i);
        if j == p {
            assert(ch.contains(i as usize));
        } else {
            assert(!ch.contains(i as usize)) by {
                if ch.contains(i as usize) {
                    let w = choose|w: int| 0 <= w < ch.len() && ch[w] == i as usize;
                    assert((d[i].parent as int) == j);
                }
            }
            assert(cur[j] == prev[j]);
        }
    }
}

impl Aggregator {
    /// The structural invariant (see [`wf_dirs`]).
    pub open spec fn wf(&self) -> bool {
        wf_dirs(self.dirs@)
    }

    /// The direct byte sums of all directories, uncapped.
    pub open spec fn direct_bytes_true(&self) -> Seq<int> {
        self.dirs@.map_values(|r: DirRec| sum_u64(sizes_of(r.files@)))
    }

    /// The direct file counts of all directories.
    pub open spec fn direct_files_true(&self) -> Seq<int> {
        self.dirs@.map_values(|r: DirRec| r.files@.len() as int)
    }

    /// The direct subdirectory counts of all directories.
    pub open spec fn direct_dirs_true(&self) -> Seq<int> {
        self.dirs@.map_values(|r: DirRec| r.children@.len() as int)
    }

    /// An empty aggregation.
    pub fn new() -> (r: Aggregator)
        ensures
            r.wf(),
            r.dirs@.len() == 0,
    {
        Aggregator { dirs: Vec::new() }
    }

    /// Find the record registered for `path`.
    pub fn find_dir(&self, path: &str) -> (r: Option<usize>)
        ensures
            match r {
                Some(i) => i < self.dirs@.len() && self.dirs@[i as int].path@ == path@,
                None => forall|j: int| 0 <= j < self.dirs@.len() ==> self.dirs@[j].path@ != path@,
            },
    {
        let mut i: usize = self.dirs.len();
        while i > 0
            invariant
                i <= self.dirs@.len(),
                forall|j: int| i <= j < self.dirs@.len() ==> self.dirs@[j].path@ != path@,
            decreases i,
        {
            i = i - 1;
            if crate::text::str_eq(self.dirs[i].path.as_str(), path) {
                return Some(i);
            }
        }
        None
    }

    /// Register the traversal root. Its stats start at zero.
    pub fn add_root(&mut self, path: &str)
        requires
            old(self).wf(),
            old(self).dirs@.len() == 0,
        ensures
            final(self).wf(),
            final(self).dirs@.len() == 1,
            final(self).dirs@[0].path@ == path@,
            final(self).dirs@[0].files@.len() == 0,
            final(self).dirs@[0].children@.len() == 0,
            final(self).direct_bytes_true() =~= seq![0int],
            final(self).direct_files_true() =~= seq![0int],
            final(self).direct_dirs_true() =~= seq![0int],
    {
        let name = crate::text::base_name(path);
        let rec = DirRec {
            path: path.to_owned(),
            parent: 0,
            stats: DirStats { direct_bytes: 0, direct_files: 0, direct_dirs: 0 },
            children: Vec::new(),
            files: Vec::new(),
        };
        let _ = name;
        self.dirs.push(rec);
        proof {
            assert(sizes_of(self.dirs@[0].files@) =~= Seq::<u64>::empty());
        }
    }

    /// Register a directory under the already-registered parent at index
    /// `parent`: a fresh record with zero stats, plus one parent-to-child
    /// edge, counted in the parent's direct subdirectory counter.
    #[verifier::rlimit(100)]
    #[verifier::spinoff_prover]
    pub fn add_dir(&mut self, path: &str, parent: usize)
        requires
            old(self).wf(),
            parent < old(self).dirs@.len(),
            forall|j: int| 0 <= j < old(self).dirs@.len() ==> old(self).dirs@[j].path@ != path@,
        ensures
            final(self).wf(),
            final(self).dirs@.len() == old(self).dirs@.len() + 1,
            final(self).dirs@[old(self).dirs@.len() as int].path@ == path@,
            final(self).dirs@[old(self).dirs@.len() as int].parent == parent,
            final(self).direct_bytes_true() =~= old(self).direct_bytes_true().push(0),
            final(self).direct_files_true() =~= old(self).direct_files_true().push(0),
            final(self).direct_dirs_true() =~= old(self).direct_dirs_true().update(
                parent as int,
                old(self).direct_dirs_true()[parent as int] + 1,
            ).push(0),
            // Only the parent's record changes, and only its child list.
            forall|j: int|
                0 <= j < old(self).dirs@.len() && j != parent ==> final(self).dirs@[j] == old(
                    self,
                ).dirs@[j],
            forall|j: int|
                0 <= j < old(self).dirs@.len() ==> final(self).dirs@[j].files@ == old(
                    self,
                ).dirs@[j].files@,
            forall|j: int|
                0 <= j < old(self).dirs@.len() ==> (#[trigger] final(self).dirs@[j]).path@ == old(
                    self,
                ).dirs@[j].path@,
    {
        let n = self.dirs.len();
        let rec = DirRec {
            path: path.to_owned(),
            parent,
            stats: DirStats { direct_bytes: 0, direct_files: 0, direct_dirs: 0 },
            children: Vec::new(),
            files: Vec::new(),
        };
        let ghost newrec = rec;
        let ghost pre = self.dirs@;
        self.dirs.push(rec);
        let mut slot = DirRec {
            path: String::new(),
            parent: 0,
            stats: DirStats { direct_bytes: 0, direct_files: 0, direct_dirs: 0 },
            children: Vec::new(),
            files: Vec::new(),
        };
        self.dirs.set_and_swap(parent, &mut slot);
        let ghost withnew = pre.push(newrec);
        slot.children.push(n);
        slot.stats.direct_dirs = sat_add64(slot.stats.direct_dirs, 1);
        let ghost np = slot;
        self.dirs.set(parent, slot);
        proof {
            let now = self.dirs@;
            assert(now =~= withnew.update(parent as int, np));
            let op = pre[parent as int];
            assert(np.children@ =~= op.children@.push(n));
            assert(np.files@ == op.files@);
            assert(sizes_of(np.files@) == sizes_of(op.files@));
            assert(final(self).wf()) by {
                assert(forall|k: int|
                    0 <= k < op.children@.len() ==> np.children@[k] == op.children@[k]);
                assert(np.children@[op.children@.len() as int] == n);
                assert(forall|k: int|
                    0 <= k < op.children@.len() ==> (op.children@[k] as int) < n as int);
            }
            assert(final(self).direct_bytes_true() =~= old(self).direct_bytes_true().push(0)) by {
                assert(sizes_of(newrec.files@) =~= Seq::<u64>::empty());
            }
        }
    }

    /// Record an accepted file under the registered directory at index
    /// `parent`: appended to that directory's file list and counted into its
    /// direct byte and file counters.
    #[verifier::rlimit(100)]
    #[verifier::spinoff_prover]
    pub fn add_file(&mut self, parent: usize, file: ScanFile)
        requires
            old(self).wf(),
            parent < old(self).dirs@.len(),
        ensures
            final(self).wf(),
            final(self).dirs@.len() == old(self).dirs@.len(),
            final(self).dirs@[parent as int].files@ == old(self).dirs@[parent as int].files@.push(
                file,
            ),
            forall|j: int|
                0 <= j < old(self).dirs@.len() && j != parent ==> final(self).dirs@[j] == old(
                    self,
                ).dirs@[j],
            forall|j: int|
                0 <= j < old(self).dirs@.len() ==> (#[trigger] final(self).dirs@[j]).path@ == old(
                    self,
                ).dirs@[j].path@,
            final(self).direct_bytes_true() =~= old(self).direct_bytes_true().update(
                parent as int,
                old(self).direct_bytes_true()[parent as int] + file.size_bytes,
            ),
            final(self).direct_files_true() =~= old(self).direct_files_true().update(
                parent as int,
                old(self).direct_files_true()[parent as int] + 1,
            ),
            final(self).direct_dirs_true() =~= old(self).direct_dirs_true(),
    {
        let ghost pre = self.dirs@;
        let size = file.size_bytes;
        let mut slot = DirRec {
            path: String::new(),
            parent: 0,
            stats: DirStats { direct_bytes: 0, direct_files: 0, direct_dirs: 0 },
            children: Vec::new(),
            files: Vec::new(),
        };
        self.dirs.set_and_swap(parent, &mut slot);
        slot.files.push(file);
        slot.stats.direct_bytes = sat_add64(slot.stats.direct_bytes, size);
        slot.stats.direct_files = sat_add64(slot.stats.direct_files, 1);
        let ghost np = slot;
        self.dirs.set(parent, slot);
        proof {
            let now = self.dirs@;
            assert(now =~= pre.update(parent as int, np));
            let op = pre[parent as int];
            assert(np.files@ =~= op.files@.push(file));
            assert(sizes_of(np.files@) =~= sizes_of(op.files@).push(size));
            assert(sizes_of(np.files@).drop_last() =~= sizes_of(op.files@));
            assert(np.children@ == op.children@);
            lemma_sum_u64_nonneg(sizes_of(op.files@));
            assert(final(self).wf());
            assert(final(self).direct_bytes_true() =~= old(self).direct_bytes_true().update(
                parent as int,
                old(self).direct_bytes_true()[parent as int] + size,
            ));
        }
    }

    /// Bottom-up recursive totals for one counter. `direct` holds each
    /// directory's own capped value and `tru` its uncapped ghost counterpart.
    /// The result at every index is the capped subtree total — the node's own
    /// value plus the totals of all its children — and the root's total is
    /// the capped sum of every directory's direct value.
    #[verifier::rlimit(100)]
    #[verifier::spinoff_prover]
    #[verifier::loop_isolation(false)]
    pub fn fold_totals(&self, direct: &Vec<u64>, Ghost(tru): Ghost<Seq<int>>) -> (out: (
        Vec<u64>,
        Ghost<Seq<int>>,
    ))
        requires
            self.wf(),
            direct@.len() == self.dirs@.len(),
            tru.len() == self.dirs@.len(),
            forall|j: int|
                0 <= j < tru.len() ==> (#[trigger] tru[j]) >= 0 && direct@[j] as int == cap64(
                    tru[j],
                ),
        ensures
            out.0@.len() == self.dirs@.len(),
            out.1@.len() == self.dirs@.len(),
            forall|j: int|
                0 <= j < self.dirs@.len() ==> (#[trigger] out.1@[j]) >= 0 && out.0@[j] as int
                    == cap64(out.1@[j]),
            forall|j: int|
                0 <= j < self.dirs@.len() ==> (#[trigger] out.1@[j]) == tru[j] + sum_from(
                    out.1@,
                    self.dirs@[j].children@,
                    1,
                ),
            self.dirs@.len() > 0 ==> out.1@[0] == sum_prefix(tru, tru.len() as int),
    {
        let n = self.dirs.len();
        let mut totals: Vec<u64> = Vec::new();
        let mut q: usize = 0;
        while q < n
            invariant
                n == direct@.len(),
                q <= n,
                totals@ == direct@.take(q as int),
            decreases n - q,
        {
            totals.push(direct[q]);
            q = q + 1;
        }
        proof {
            assert(totals@ =~= direct@);
        }
        let ghost mut cur = tru;
        proof {
            assert forall|j: int| 0 <= j < n implies sum_from(
                cur,
                self.dirs@[j].children@,
                n as int,
            ) == 0 by {
                lemma_sum_from_empty_range(cur, self.dirs@[j].children@, n as int);
            }
            assert(totals@ == direct@);
            assert forall|j: int| 0 <= j < n implies cur[j] >= 0 && totals@[j] as int == cap64(
                cur[j],
            ) by {
                assert(direct@[j] as int == cap64(tru[j]));
                assert(tru[j] >= 0);
            }
        }
        if n <= 1 {
            proof {
                assert(sum_prefix(tru, 0) == 0);
                if n == 1 {
                    assert(sum_prefix(tru, 1) == sum_prefix(tru, 0) + tru[0]);
                }
            }
            return (totals, Ghost(cur));
        }
        let mut k: usize = n;
        while k > 1
            invariant
                self.wf(),
                n == self.dirs@.len(),
                totals@.len() == n,
                cur.len() == n,
                tru.len() == n,
                1 <= k <= n,
                forall|j: int|
                    0 <= j < n ==> (#[trigger] cur[j]) >= 0 && totals@[j] as int == cap64(cur[j]),
                sum_prefix(cur, k as int) == sum_prefix(tru, n as int),
                forall|j: int|
                    0 <= j < n ==> (#[trigger] cur[j]) == tru[j] + sum_from(
                        cur,
                        self.dirs@[j].children@,
                        k as int,
                    ),
            decreases k,
        {
            k = k - 1;
            let i = k;
            let p = self.dirs[i].parent;
            let ti = totals[i];
            let tp = totals[p];
            totals.set(p, sat_add64(tp, ti));
            proof {
                let prev = cur;
                cur = cur.update(p as int, prev[p as int] + prev[i as int]);
                lemma_sum_prefix_update(prev, p as int, prev[p as int] + prev[i as int], i as int);
                assert(sum_prefix(cur, i as int) == sum_prefix(prev, i as int) + prev[i as int]);
                assert(sum_prefix(prev, i + 1) == sum_prefix(prev, i as int) + prev[i as int]);
                lemma_wf_flat(self.dirs@);
                lemma_fold_step(self.dirs@, tru, prev, i as int);
                lemma_cap_add(prev[p as int], prev[i as int]);
                assert forall|j: int| 0 <= j < n implies (#[trigger] cur[j]) >= 0 && totals@[j]
                    as int == cap64(cur[j]) by {
                    if j != p {
                        assert(cur[j] == prev[j]);
                    }
                }
            }
        }
        proof {
            assert(sum_prefix(cur, 0) == 0);
            assert(sum_prefix(cur, 1) == sum_prefix(cur, 0) + cur[0]);
        }
        (totals, Ghost(cur))
    }
}

} // verus!
