//! The bounded largest-files tracker: a fixed-capacity list, kept sorted by
//! size descending, fed one file at a time; zero-size files are ignored.

use vstd::prelude::*;
use vstd::math::min;
use crate::types::ScanFile;
use crate::text::base_name;

verus! {

/// The sizes of a list of file records.
pub open spec fn sizes_of(s: Seq<ScanFile>) -> Seq<u64> {
    s.map_values(|f: ScanFile| f.size_bytes)
}

/// Non-increasing order.
pub open spec fn sorted_desc(s: Seq<u64>) -> bool {
    forall|i: int, j: int| 0 <= i < j < s.len() ==> s[i] >= s[j]
}

/// Strictly decreasing order.
pub open spec fn strictly_desc(s: Seq<u64>) -> bool {
    forall|i: int, j: int| 0 <= i < j < s.len() ==> s[i] > s[j]
}

pub proof fn lemma_insert_to_multiset<A>(s: Seq<A>, p: int, x: A)
    requires
        0 <= p <= s.len(),
    ensures
        s.insert(p, x).to_multiset() =~= s.to_multiset().insert(x),
{
    broadcast use vstd::seq_lib::group_to_multiset_ensures;

    let t = s.insert(p, x);
    s.insert_ensures(p, x);
    assert(t.remove(p) =~= s);
    assert(t[p] == x);
    assert(t.remove(p).to_multiset() =~= t.to_multiset().remove(t[p]));
    assert(t.to_multiset().count(x) > 0);
    assert forall|y: A| s.to_multiset().insert(x).count(y) == t.to_multiset().count(y) by {
        assert(s.to_multiset().count(y) == t.to_multiset().remove(x).count(y));
    }
    assert(s.to_multiset().insert(x) =~= t.to_multiset());
}

/// Tracks the `limit` largest positive-size files offered so far, in size
/// order. `offered` records the sizes of every positive-size offer and
/// `offered_files` the full records behind them.
pub struct TopFiles {
    entries: Vec<ScanFile>,
    limit: usize,
    offered: Ghost<Seq<u64>>,
    offered_files: Ghost<Seq<ScanFile>>,
}

impl TopFiles {
    /// The tracked entries, largest first.
    pub closed spec fn spec_entries(&self) -> Seq<ScanFile> {
        self.entries@
    }

    /// The capacity.
    pub closed spec fn spec_limit(&self) -> int {
        self.limit as int
    }

    /// The sizes of every positive-size file offered so far.
    pub closed spec fn offered(&self) -> Seq<u64> {
        self.offered@
    }

    /// The records of every positive-size file offered so far, in order.
    pub closed spec fn offered_files(&self) -> Seq<ScanFile> {
        self.offered_files@
    }

    /// The tracker's invariant: entries are sorted by size descending, all
    /// positive, exactly min(limit, positive offers) many; what is kept is a
    /// sub-multiset of what was offered, and — once full — every size above
    /// the smallest kept entry is kept with its full multiplicity.
    pub closed spec fn wf(&self) -> bool {
        let sz = sizes_of(self.entries@);
        let m = sz.to_multiset();
        let o = self.offered@.to_multiset();
        &&& self.limit >= 1
        &&& sorted_desc(sz)
        &&& forall|i: int| 0 <= i < sz.len() ==> sz[i] > 0
        &&& self.entries@.len() == min(self.limit as int, self.offered@.len() as int)
        &&& sizes_of(self.offered_files@) == self.offered@
        &&& (forall|f: ScanFile|
            (#[trigger] self.entries@.to_multiset().count(f))
                <= self.offered_files@.to_multiset().count(f))
        &&& (if self.entries@.len() < self.limit {
            m =~= o
        } else {
            forall|s: u64|
                (#[trigger] m.count(s)) <= o.count(s) && (s > sz[sz.len() - 1] ==> m.count(s)
                    == o.count(s))
        })
    }

    /// The facts the invariant guarantees, for callers.
    pub proof fn lemma_wf_props(&self)
        requires
            self.wf(),
        ensures
            sorted_desc(sizes_of(self.spec_entries())),
            forall|i: int|
                0 <= i < self.spec_entries().len() ==> sizes_of(self.spec_entries())[i] > 0,
            self.spec_entries().len() == min(self.spec_limit(), self.offered().len() as int),
            forall|s: u64|
                (#[trigger] sizes_of(self.spec_entries()).to_multiset().count(s))
                    <= self.offered().to_multiset().count(s),
            sizes_of(self.offered_files()) == self.offered(),
            // Every kept entry is one of the offered records, path and all.
            forall|f: ScanFile|
                (#[trigger] self.spec_entries().to_multiset().count(f))
                    <= self.offered_files().to_multiset().count(f),
    {
        broadcast use vstd::seq_lib::group_to_multiset_ensures;

        let sz = sizes_of(self.entries@);
        if self.entries@.len() < self.limit {
            assert(sz.to_multiset() =~= self.offered@.to_multiset());
        }
    }

    /// A tracker holding nothing, with capacity `limit`.
    pub fn new(limit: usize) -> (r: TopFiles)
        requires
            limit >= 1,
        ensures
            r.wf(),
            r.spec_entries().len() == 0,
            r.offered().len() == 0,
            r.offered_files().len() == 0,
            r.spec_limit() == limit,
    {
        let r = TopFiles {
            entries: Vec::new(),
            limit,
            offered: Ghost(Seq::empty()),
            offered_files: Ghost(Seq::empty()),
        };
        proof {
            broadcast use vstd::seq_lib::group_to_multiset_ensures;

            assert(sizes_of(r.entries@) =~= Seq::<u64>::empty());
            assert(sizes_of(r.entries@).to_multiset() =~= r.offered@.to_multiset());
            assert(sizes_of(r.offered_files@) =~= r.offered@);
            assert forall|f: ScanFile|
                (#[trigger] r.entries@.to_multiset().count(f))
                    <= r.offered_files@.to_multiset().count(f) by {
                assert(!r.entries@.contains(f));
            }
        }
        r
    }

    /// Offer one file. Zero-size files are ignored; otherwise the file enters
    /// the list when it is larger than the smallest kept entry or the list is
    /// not yet full, evicting the smallest entry when over capacity.
    pub fn offer(&mut self, path: &str, size_bytes: u64)
        requires
            old(self).wf(),
        ensures
            final(self).wf(),
            final(self).spec_limit() == old(self).spec_limit(),
            size_bytes == 0 ==> final(self).offered() == old(self).offered() && final(self).spec_entries() == old(self).spec_entries() && final(self).offered_files() == old(self).offered_files(),
            size_bytes > 0 ==> final(self).offered() == old(self).offered().push(size_bytes),
            // The offered record is the file itself: this path, its base
            // name, this size.
            size_bytes > 0 ==> {
                &&& final(self).offered_files().len() == old(self).offered_files().len() + 1
                &&& final(self).offered_files().drop_last() == old(self).offered_files()
                &&& final(self).offered_files().last().path@ == path@
                &&& final(self).offered_files().last().name@ == crate::text::spec_base_name(path@)
                &&& final(self).offered_files().last().size_bytes == size_bytes
            },
            // What the list keeps: below capacity the offered record enters;
            // at capacity it replaces the smallest entry only when strictly
            // larger, so on a tie the incumbent stays.
            size_bytes > 0 && old(self).spec_entries().len() < old(self).spec_limit()
                ==> final(self).spec_entries().to_multiset() == old(
                self,
            ).spec_entries().to_multiset().insert(final(self).offered_files().last()),
            size_bytes > 0 && old(self).spec_entries().len() >= old(self).spec_limit()
                && size_bytes <= sizes_of(old(self).spec_entries()).last()
                ==> final(self).spec_entries() == old(self).spec_entries(),
            size_bytes > 0 && old(self).spec_entries().len() >= old(self).spec_limit()
                && size_bytes > sizes_of(old(self).spec_entries()).last()
                ==> final(self).spec_entries().to_multiset() == old(
                self,
            ).spec_entries().to_multiset().remove(old(self).spec_entries().last()).insert(
                final(self).offered_files().last(),
            ),
    {
        broadcast use vstd::seq_lib::group_to_multiset_ensures;

        if size_bytes == 0 {
            return ;
        }
        let name = base_name(path);
        let file = ScanFile { path: path.to_owned(), name, size_bytes };
        let ghost old_sz = sizes_of(self.entries@);
        let ghost old_off = self.offered@;
        let ghost old_files = self.offered_files@;
        proof {
            self.offered@ = old_off.push(size_bytes);
            self.offered_files@ = old_files.push(file);
            assert(self.offered_files@.drop_last() =~= old_files);
            assert(sizes_of(self.offered_files@) =~= sizes_of(old_files).push(size_bytes));
        }
        if self.entries.len() >= self.limit {
            let smallest = self.entries[self.entries.len() - 1].size_bytes;
            if size_bytes <= smallest {
                proof {
                    assert(old_sz.to_multiset().count(size_bytes) <= old_off.to_multiset().count(
                        size_bytes,
                    ));
                    assert(self.offered@.drop_last() =~= old_off);
                    assert forall|s: u64|
                        (#[trigger] old_sz.to_multiset().count(s)) <= self.offered@.to_multiset().count(
                            s,
                        ) && (s > old_sz[old_sz.len() - 1] ==> old_sz.to_multiset().count(s)
                            == self.offered@.to_multiset().count(s)) by {
                        assert(self.offered@.to_multiset() =~= old_off.to_multiset().insert(
                            size_bytes,
                        ));
                    }
                    assert forall|f: ScanFile|
                        (#[trigger] self.entries@.to_multiset().count(f))
                            <= self.offered_files@.to_multiset().count(f) by {
                        assert(self.entries@.to_multiset().count(f)
                            <= old_files.to_multiset().count(f));
                        assert(self.offered_files@.to_multiset() =~= old_files.to_multiset().insert(
                            file,
                        ));
                    }
                }
                return ;
            }
            // Evict the smallest entry, then place the new file.
            let ghost pre = self.entries@;
            let _ = self.entries.pop();
            proof {
                assert(self.entries@ =~= pre.remove(pre.len() - 1));
                assert(sizes_of(self.entries@) =~= old_sz.remove(old_sz.len() - 1));
            }
            let ghost mid_recs = self.entries@;
            self.insert_sorted(file);
            proof {
                broadcast use vstd::multiset::group_multiset_axioms;

                assert forall|f: ScanFile|
                    (#[trigger] self.entries@.to_multiset().count(f))
                        <= self.offered_files@.to_multiset().count(f) by {
                    assert(self.entries@.to_multiset() =~= mid_recs.to_multiset().insert(file));
                    assert(mid_recs.to_multiset() =~= pre.to_multiset().remove(
                        pre[pre.len() - 1],
                    ));
                    assert(pre.to_multiset().count(f) <= old_files.to_multiset().count(f));
                    assert(self.offered_files@.to_multiset() =~= old_files.to_multiset().insert(
                        file,
                    ));
                }

                let sz = sizes_of(self.entries@);
                let m = sz.to_multiset();
                let o = self.offered@.to_multiset();
                let mid_seq = old_sz.remove(old_sz.len() - 1);
                let mid = mid_seq.to_multiset();
                assert(mid =~= old_sz.to_multiset().remove(smallest));
                assert(m =~= mid.insert(size_bytes));
                assert(o =~= old_off.to_multiset().insert(size_bytes));
                assert(sz.len() == self.limit);
                let last = sz[sz.len() - 1];
                old_sz.remove_ensures(old_sz.len() - 1);
                // The new smallest entry is at least the old one: it is the
                // new file (strictly larger) or a surviving old entry.
                assert(last >= smallest) by {
                    if last != size_bytes {
                        assert(mid_seq.contains(last));
                        let k = choose|k: int|
                            0 <= k < mid_seq.len() && mid_seq[k] == last;
                        assert(mid_seq[k] == old_sz[k]);
                        assert(old_sz[k] >= smallest);
                    }
                }
                assert(old_sz.to_multiset().count(smallest) > 0) by {
                    assert(old_sz.contains(smallest));
                }
                assert forall|s: u64|
                    (#[trigger] m.count(s)) <= o.count(s) && (s > last ==> m.count(s) == o.count(
                        s,
                    )) by {
                    assert(old_sz.to_multiset().count(s) <= old_off.to_multiset().count(s));
                    if s > last {
                        assert(s > smallest);
                        assert(old_sz.to_multiset().count(s) == old_off.to_multiset().count(s));
                        assert(mid.count(s) == old_sz.to_multiset().count(s));
                    }
                }
            }
        } else {
            let ghost pre = self.entries@;
            self.insert_sorted(file);
            proof {
                assert forall|f: ScanFile|
                    (#[trigger] self.entries@.to_multiset().count(f))
                        <= self.offered_files@.to_multiset().count(f) by {
                    assert(self.entries@.to_multiset() =~= pre.to_multiset().insert(file));
                    assert(pre.to_multiset().count(f) <= old_files.to_multiset().count(f));
                    assert(self.offered_files@.to_multiset() =~= old_files.to_multiset().insert(
                        file,
                    ));
                }
                let m = sizes_of(self.entries@).to_multiset();
                let o = self.offered@.to_multiset();
                assert(old_sz.to_multiset() =~= old_off.to_multiset());
                assert(m =~= old_sz.to_multiset().insert(size_bytes));
                assert(o =~= old_off.to_multiset().insert(size_bytes));
                assert(old_sz.len() == old_off.len());
                if self.entries@.len() == self.limit {
                    assert forall|s: u64|
                        (#[trigger] m.count(s)) <= o.count(s) && (s > sizes_of(
                            self.entries@,
                        )[self.entries@.len() - 1] ==> m.count(s) == o.count(s)) by {
                        assert(m.count(s) == o.count(s));
                    }
                }
            }
        }
    }

    /// Place a positive-size file at its sorted position: after every entry at
    /// least as large, before every strictly smaller one.
    #[verifier::rlimit(100)]
    fn insert_sorted(&mut self, file: ScanFile)
        requires
            file.size_bytes > 0,
            sorted_desc(sizes_of(old(self).entries@)),
            forall|i: int|
                0 <= i < old(self).entries@.len() ==> sizes_of(old(self).entries@)[i] > 0,
        ensures
            final(self).limit == old(self).limit,
            final(self).offered == old(self).offered,
            final(self).offered_files == old(self).offered_files,
            sorted_desc(sizes_of(final(self).entries@)),
            forall|i: int|
                0 <= i < final(self).entries@.len() ==> sizes_of(final(self).entries@)[i] > 0,
            final(self).entries@.len() == old(self).entries@.len() + 1,
            final(self).entries@.to_multiset() =~= old(self).entries@.to_multiset().insert(file),
            sizes_of(final(self).entries@).to_multiset() =~= sizes_of(
                old(self).entries@,
            ).to_multiset().insert(file.size_bytes),
            forall|i: int|
                0 <= i < final(self).entries@.len() ==> sizes_of(final(self).entries@)[i]
                    == file.size_bytes || sizes_of(old(self).entries@).contains(
                    sizes_of(final(self).entries@)[i],
                ),
    {
        broadcast use vstd::seq_lib::group_to_multiset_ensures;

        let size_bytes = file.size_bytes;
        let ghost pre = self.entries@;
        let mut p: usize = 0;
        loop
            invariant_except_break
                p <= self.entries@.len(),
                self.entries@ == pre,
                forall|k: int| 0 <= k < p ==> sizes_of(pre)[k] >= size_bytes,
            ensures
                p <= self.entries@.len(),
                self.entries@ == pre,
                forall|k: int| 0 <= k < p ==> sizes_of(pre)[k] >= size_bytes,
                p < pre.len() ==> sizes_of(pre)[p as int] < size_bytes,
            decreases self.entries@.len() - p,
        {
            if p == self.entries.len() {
                break ;
            }
            if self.entries[p].size_bytes < size_bytes {
                break ;
            }
            p = p + 1;
        }
        self.entries.insert(p, file);
        proof {
            pre.insert_ensures(p as int, file);
            let now = self.entries@;
            let szn = sizes_of(now);
            let szp = sizes_of(pre);
            assert(forall|k: int| 0 <= k < p ==> now[k] == pre[k]);
            assert(forall|k: int| p <= k < pre.len() ==> now[k + 1] == pre[k]);
            assert(now[p as int] == file);
            assert(forall|k: int| 0 <= k < now.len() ==> szn[k] == now[k].size_bytes);
            assert(forall|k: int| 0 <= k < pre.len() ==> szp[k] == pre[k].size_bytes);
            assert forall|i: int, j: int| 0 <= i < j < szn.len() implies szn[i] >= szn[j] by {
                if j < p {
                    assert(szp[i] >= szp[j]);
                } else if j == p {
                    assert(szp[i] >= size_bytes);
                } else {
                    assert(szn[j] == szp[j - 1]);
                    if i < p {
                        assert(szp[i] >= szp[j - 1]);
                    } else if i == p {
                        assert(szp[p as int] < size_bytes);
                        assert(szp[j - 1] <= szp[p as int]);
                    } else {
                        assert(szp[i - 1] >= szp[j - 1]);
                    }
                }
            }
            assert forall|i: int| 0 <= i < szn.len() implies szn[i] > 0 && (szn[i] == size_bytes
                || szp.contains(szn[i])) by {
                if i < p {
                    assert(szn[i] == szp[i]);
                } else if i > p {
                    assert(szn[i] == szp[i - 1]);
                }
            }
            lemma_insert_to_multiset(pre, p as int, file);
            lemma_insert_to_multiset(sizes_of(pre), p as int, size_bytes);
            assert(sizes_of(pre.insert(p as int, file)) =~= sizes_of(pre).insert(
                p as int,
                size_bytes,
            ));
        }
    }

    /// The tracked entries, largest first, as an owned list.
    pub fn entries(&self) -> (r: Vec<ScanFile>)
        ensures
            r@ == self.spec_entries(),
    {
        crate::types::clone_files(&self.entries)
    }

    /// How many entries are tracked.
    pub fn len(&self) -> (r: usize)
        ensures
            r == self.spec_entries().len(),
    {
        self.entries.len()
    }

    /// Once the offered sizes are pairwise distinct, the kept list is
    /// strictly descending: the tracker never keeps one size twice unless it
    /// was offered twice.
    pub proof fn lemma_strict_when_distinct(&self)
        requires
            self.wf(),
            self.offered().no_duplicates(),
        ensures
            strictly_desc(sizes_of(self.spec_entries())),
            self.spec_entries().len() == min(self.spec_limit(), self.offered().len() as int),
    {
        broadcast use vstd::seq_lib::group_to_multiset_ensures;

        let sz = sizes_of(self.entries@);
        self.offered@.lemma_multiset_has_no_duplicates();
        if self.entries@.len() < self.limit {
            assert(sz.to_multiset() =~= self.offered@.to_multiset());
        }
        assert forall|i: int, j: int| 0 <= i < j < sz.len() implies sz[i] > sz[j] by {
            if sz[i] == sz[j] {
                let s = sz[i];
                assert(sz.remove(j).to_multiset() =~= sz.to_multiset().remove(sz[j]));
                assert(sz.remove(j)[i] == s);
                assert(sz.remove(j).to_multiset().count(s) > 0) by {
                    assert(sz.remove(j).contains(s));
                }
                assert(sz.to_multiset().count(s) >= 2);
                assert(self.offered@.to_multiset().count(s) >= 2);
                assert(false);
            }
        }
    }
}

} // verus!
