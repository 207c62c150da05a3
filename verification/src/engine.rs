//! The walk engine's per-entry state machine: filtering, aggregation,
//! largest-file tracking, throttling and progress emission for one traversal.
//! The driver feeds it one filesystem entry at a time and performs whatever
//! the returned outcome asks (emit an event, sleep); cancellation and
//! completion are explicit transitions.

use vstd::prelude::*;
use vstd::math::min;
use crate::agg::{
    Aggregator, DirRec, cap64, sat_add64, sum_prefix, sum_u64, lemma_sum_prefix_frame,
    lemma_sum_prefix_update,
};
use crate::filter::CompiledFilter;
use crate::options::{ScanConfig, ThrottlePlan};
use crate::snapshot::render_summary;
use crate::text::spec_parent_dir;
use crate::topfiles::{TopFiles, sizes_of, sorted_desc, strictly_desc};
use crate::types::{ScanEvent, ScanFile};

verus! {

/// One filesystem entry, as the traversal delivers it: an absolute path, what
/// kind of entry it is, and (for files) its size in bytes.
pub struct FsEntry {
    pub path: String,
    pub is_dir: bool,
    pub is_file: bool,
    pub size_bytes: u64,
}

/// The kinds of event a scan can emit, for bookkeeping of what was emitted.
pub enum EventKind {
    Progress,
    Complete,
    Cancelled,
}

/// What one step asks of the driver: possibly an event to deliver, and a
/// cooperative pause in milliseconds (zero for none).
pub struct StepOutcome {
    pub event: Option<ScanEvent>,
    pub sleep_ms: u64,
}

/// Where the engine stands.
#[derive(Clone, Copy, Debug, PartialEq, Eq, Structural)]
pub enum EnginePhase {
    Running,
    Cancelled,
    Done,
}

/// The sub-sequence of positive sizes.
pub open spec fn positives(s: Seq<u64>) -> Seq<u64>
    decreases s.len(),
{
    if s.len() == 0 {
        Seq::empty()
    } else if s.last() > 0 {
        positives(s.drop_last()).push(s.last())
    } else {
        positives(s.drop_last())
    }
}

/// Some registered directory has exactly this path.
pub open spec fn dir_registered(d: Seq<DirRec>, path: Seq<char>) -> bool {
    exists|j: int| 0 <= j < d.len() && d[j].path@ == path
}

/// The engine for one traversal.
pub struct ScanEngine {
    pub root: String,
    pub filter: CompiledFilter,
    pub emit_every: u64,
    pub emit_interval_ms: u64,
    pub throttle: Option<ThrottlePlan>,
    pub id: Option<String>,
    pub agg: Aggregator,
    pub top: TopFiles,
    pub phase: EnginePhase,
    pub processed: u64,
    pub start_ms: u64,
    pub last_emit_ms: u64,
    pub last_emitted_bytes: u64,
    /// Sizes of every accepted file, in acceptance order.
    pub accepted: Ghost<Seq<u64>>,
    /// The `totalBytes` of every emitted progress snapshot, in order.
    pub progress_log: Ghost<Seq<u64>>,
    /// The kind of every emitted event, in order.
    pub events: Ghost<Seq<EventKind>>,
}

impl ScanEngine {
    /// The engine invariant: the aggregation is well-formed and its counter
    /// sums track the accepted files exactly; the largest-files tracker was
    /// offered exactly the accepted positive sizes; emitted progress totals
    /// are non-decreasing; and the event log matches the phase — while
    /// running, only progress events have been emitted, and a cancelled or
    /// completed engine has emitted exactly one final event, last.
    pub open spec fn wf(&self) -> bool {
        let n = self.agg.dirs@.len() as int;
        &&& self.agg.wf()
        &&& n >= 1
        &&& self.agg.dirs@[0].path@ == self.root@
        &&& self.filter.wf()
        &&& self.top.wf()
        &&& self.top.spec_limit() == 10
        &&& self.top.offered() == positives(self.accepted@)
        &&& sum_prefix(self.agg.direct_bytes_true(), n) == sum_u64(self.accepted@)
        &&& sum_prefix(self.agg.direct_files_true(), n) == self.accepted@.len()
        &&& sum_prefix(self.agg.direct_dirs_true(), n) == n - 1
        &&& self.emit_every > 0
        &&& (self.throttle is Some ==> self.throttle->0.every_entries > 0)
        &&& (forall|i: int, j: int|
            0 <= i < j < self.progress_log@.len() ==> self.progress_log@[i]
                <= self.progress_log@[j])
        &&& (forall|i: int|
            0 <= i < self.progress_log@.len() ==> self.progress_log@[i]
                <= self.last_emitted_bytes)
        &&& (self.phase == EnginePhase::Running ==> forall|i: int|
            0 <= i < self.events@.len() ==> self.events@[i] == EventKind::Progress)
        &&& (self.phase == EnginePhase::Cancelled ==> self.events@.len() > 0
            && self.events@.last() == EventKind::Cancelled && forall|i: int|
            0 <= i < self.events@.len() - 1 ==> self.events@[i] == EventKind::Progress)
        &&& (self.phase == EnginePhase::Done ==> self.events@.len() > 0 && self.events@.last()
            == EventKind::Complete && forall|i: int|
            0 <= i < self.events@.len() - 1 ==> self.events@[i] == EventKind::Progress)
    }

    /// Whether this entry is counted: a file, within the filter, under a
    /// registered (not pruned) parent directory.
    pub open spec fn spec_accepts(&self, entry: &FsEntry) -> bool {
        &&& !entry.is_dir
        &&& entry.is_file
        &&& self.filter.spec_include_file(entry.path@, entry.size_bytes)
        &&& spec_parent_dir(entry.path@) is Some
        &&& dir_registered(self.agg.dirs@, spec_parent_dir(entry.path@)->0)
    }

    /// Whether this entry registers a new directory: a directory not yet
    /// registered, not pruned by the filter, whose parent is registered.
    pub open spec fn spec_registers(&self, entry: &FsEntry) -> bool {
        &&& entry.is_dir
        &&& !dir_registered(self.agg.dirs@, entry.path@)
        &&& !self.filter.spec_skip_dir(self.root@, entry.path@)
        &&& spec_parent_dir(entry.path@) is Some
        &&& dir_registered(self.agg.dirs@, spec_parent_dir(entry.path@)->0)
    }

    /// A fresh engine for a traversal rooted at `root`.
    pub fn new(root: &str, config: ScanConfig, id: Option<String>, start_ms: u64) -> (r:
        ScanEngine)
        requires
            config.filter.wf(),
            config.emit_every > 0,
            config.throttle is Some ==> config.throttle->0.every_entries > 0,
        ensures
            r.wf(),
            r.phase == EnginePhase::Running,
            r.accepted@.len() == 0,
            r.progress_log@.len() == 0,
            r.events@.len() == 0,
            r.root@ == root@,
            r.agg.dirs@.len() == 1,
            r.filter == config.filter,
            r.emit_every == config.emit_every,
            r.emit_interval_ms == config.emit_interval_ms,
            r.throttle == config.throttle,
            r.id == id,
            r.start_ms == start_ms,
            r.last_emit_ms == start_ms,
            r.last_emitted_bytes == 0,
            r.processed == 0,
            r.top.offered_files().len() == 0,
    {
        let mut agg = Aggregator::new();
        agg.add_root(root);
        let r = ScanEngine {
            root: root.to_owned(),
            filter: config.filter,
            emit_every: config.emit_every,
            emit_interval_ms: config.emit_interval_ms,
            throttle: config.throttle,
            id,
            agg,
            top: TopFiles::new(10),
            phase: EnginePhase::Running,
            processed: 0,
            start_ms,
            last_emit_ms: start_ms,
            last_emitted_bytes: 0,
            accepted: Ghost(Seq::empty()),
            progress_log: Ghost(Seq::empty()),
            events: Ghost(Seq::empty()),
        };
        proof {
            assert(positives(r.accepted@) =~= Seq::<u64>::empty());
            assert(r.top.offered() =~= positives(r.accepted@));
            assert(sum_prefix(r.agg.direct_bytes_true(), 0) == 0);
            assert(sum_prefix(r.agg.direct_bytes_true(), 1) == sum_prefix(
                r.agg.direct_bytes_true(),
                0,
            ) + r.agg.direct_bytes_true()[0]);
            assert(sum_prefix(r.agg.direct_files_true(), 0) == 0);
            assert(sum_prefix(r.agg.direct_files_true(), 1) == sum_prefix(
                r.agg.direct_files_true(),
                0,
            ) + r.agg.direct_files_true()[0]);
            assert(sum_prefix(r.agg.direct_dirs_true(), 0) == 0);
            assert(sum_prefix(r.agg.direct_dirs_true(), 1) == sum_prefix(
                r.agg.direct_dirs_true(),
                0,
            ) + r.agg.direct_dirs_true()[0]);
        }
        r
    }

    /// Whether a progress emission is due once `processed` entries have been
    /// handled, by entry cadence or by elapsed time since the last emission.
    pub open spec fn spec_emit_due(&self, processed: int, now_ms: u64) -> bool {
        ||| processed % self.emit_every as int == 0
        ||| (now_ms >= self.last_emit_ms && now_ms - self.last_emit_ms >= self.emit_interval_ms)
    }

    /// Process one delivered entry. An accepted file (see [`Self::spec_accepts`])
    /// is counted into its parent's stats and offered to the largest-files
    /// tracker; an unskipped directory under a registered parent is
    /// registered. A progress event is returned when one is due and its total
    /// is not below the last emitted total, which keeps the emitted totals
    /// non-decreasing.
    #[verifier::rlimit(100)]
    pub fn step(&mut self, entry: &FsEntry, now_ms: u64) -> (r: StepOutcome)
        requires
            old(self).wf(),
            old(self).phase == EnginePhase::Running,
        ensures
            final(self).wf(),
            final(self).phase == EnginePhase::Running,
            final(self).root == old(self).root,
            final(self).filter == old(self).filter,
            final(self).id == old(self).id,
            final(self).top.spec_limit() == old(self).top.spec_limit(),
            final(self).accepted@ == if old(self).spec_accepts(entry) {
                old(self).accepted@.push(entry.size_bytes)
            } else {
                old(self).accepted@
            },
            // Directory registration: a registering entry (see
            // [`Self::spec_registers`]) appends exactly one record with its
            // path; nothing else changes the set of registered paths.
            final(self).agg.dirs@.len() == old(self).agg.dirs@.len() + (if old(self).spec_registers(entry) {
                1int
            } else {
                0int
            }),
            forall|j: int|
                0 <= j < old(self).agg.dirs@.len() ==> (#[trigger] final(self).agg.dirs@[j]).path@
                    == old(self).agg.dirs@[j].path@,
            old(self).spec_registers(entry) ==> final(self).agg.dirs@[old(self).agg.dirs@.len() as int].path@ == entry.path@,
            // The largest-files tracker is offered exactly the accepted
            // positive-size files, as full records.
            old(self).spec_accepts(entry) && entry.size_bytes > 0 ==> {
                &&& final(self).top.offered_files().len() == old(self).top.offered_files().len()
                    + 1
                &&& final(self).top.offered_files().drop_last() == old(self).top.offered_files()
                &&& final(self).top.offered_files().last().path@ == entry.path@
                &&& final(self).top.offered_files().last().name@ == crate::text::spec_base_name(
                    entry.path@,
                )
                &&& final(self).top.offered_files().last().size_bytes == entry.size_bytes
            },
            !(old(self).spec_accepts(entry) && entry.size_bytes > 0) ==> final(self).top.offered_files() == old(self).top.offered_files(),
            final(self).processed as int == cap64(old(self).processed + 1),
            r.sleep_ms == (match old(self).throttle {
                Some(t) => if t.sleep_ms > 0 && (cap64(old(self).processed + 1)
                    % t.every_entries as int) == 0 {
                    t.sleep_ms
                } else {
                    0
                },
                None => 0,
            }),
            // An event is returned exactly when one is due and its total is
            // not below the last emitted total; its payload carries the
            // engine's current capped byte total, which becomes the new
            // emission floor.
            r.event is Some <==> old(self).spec_emit_due(cap64(old(self).processed + 1), now_ms)
                && cap64(sum_u64(final(self).accepted@)) >= old(self).last_emitted_bytes,
            match r.event {
                Some(ev) => {
                    &&& ev is Progress
                    &&& crate::snapshot::compact_shape(ev->Progress_0.root)
                    &&& ev->Progress_0.total_bytes == final(self).last_emitted_bytes
                    &&& final(self).last_emitted_bytes as int == cap64(
                        sum_u64(final(self).accepted@),
                    )
                    &&& final(self).events@ == old(self).events@.push(EventKind::Progress)
                    &&& final(self).progress_log@ == old(self).progress_log@.push(
                        final(self).last_emitted_bytes,
                    )
                    &&& final(self).last_emitted_bytes >= old(self).last_emitted_bytes
                },
                None => final(self).events@ == old(self).events@ && final(self).progress_log@
                    == old(self).progress_log@ && final(self).last_emitted_bytes == old(
                    self,
                ).last_emitted_bytes,
            },
    {
        self.processed = sat_add64(self.processed, 1);
        let ghost pre = *self;
        if entry.is_dir {
            match self.agg.find_dir(entry.path.as_str()) {
                Some(_) => {
                },
                None => {
                    if !self.filter.skip_dir(self.root.as_str(), entry.path.as_str()) {
                        match crate::text::parent_dir(entry.path.as_str()) {
                            Some(par) => {
                                match self.agg.find_dir(par.as_str()) {
                                    Some(p) => {
                                        let ghost n0 = self.agg.dirs@.len() as int;
                                        let ghost b0 = self.agg.direct_bytes_true();
                                        let ghost f0 = self.agg.direct_files_true();
                                        let ghost d0 = self.agg.direct_dirs_true();
                                        self.agg.add_dir(entry.path.as_str(), p);
                                        proof {
                                            let b1 = self.agg.direct_bytes_true();
                                            let f1 = self.agg.direct_files_true();
                                            let d1 = self.agg.direct_dirs_true();
                                            lemma_sum_prefix_frame(b1, b0, n0);
                                            assert(sum_prefix(b1, n0 + 1) == sum_prefix(b1, n0)
                                                + b1[n0]);
                                            lemma_sum_prefix_frame(f1, f0, n0);
                                            assert(sum_prefix(f1, n0 + 1) == sum_prefix(f1, n0)
                                                + f1[n0]);
                                            let dmid = d0.update(p as int, d0[p as int] + 1);
                                            lemma_sum_prefix_update(
                                                d0,
                                                p as int,
                                                d0[p as int] + 1,
                                                n0,
                                            );
                                            lemma_sum_prefix_frame(d1, dmid, n0);
                                            assert(sum_prefix(d1, n0 + 1) == sum_prefix(d1, n0)
                                                + d1[n0]);
                                        }
                                    },
                                    None => {
                                    },
                                }
                            },
                            None => {
                            },
                        }
                    }
                },
            }
        } else if entry.is_file {
            if self.filter.include_file(entry.path.as_str(), entry.size_bytes) {
                match crate::text::parent_dir(entry.path.as_str()) {
                    Some(par) => {
                        match self.agg.find_dir(par.as_str()) {
                            Some(p) => {
                                let ghost n0 = self.agg.dirs@.len() as int;
                                let ghost b0 = self.agg.direct_bytes_true();
                                let ghost f0 = self.agg.direct_files_true();
                                let size = entry.size_bytes;
                                self.top.offer(entry.path.as_str(), size);
                                let name = crate::text::base_name(entry.path.as_str());
                                let file = ScanFile {
                                    path: entry.path.clone(),
                                    name,
                                    size_bytes: size,
                                };
                                self.agg.add_file(p, file);
                                proof {
                                    self.accepted@ = pre.accepted@.push(size);
                                    assert(self.accepted@.drop_last() =~= pre.accepted@);
                                    assert(sum_u64(self.accepted@) == sum_u64(pre.accepted@)
                                        + size);
                                    assert(positives(self.accepted@) == if size > 0 {
                                        positives(pre.accepted@).push(size)
                                    } else {
                                        positives(pre.accepted@)
                                    });
                                    lemma_sum_prefix_update(
                                        b0,
                                        p as int,
                                        b0[p as int] + size,
                                        n0,
                                    );
                                    lemma_sum_prefix_frame(
                                        self.agg.direct_bytes_true(),
                                        b0.update(p as int, b0[p as int] + size),
                                        n0,
                                    );
                                    lemma_sum_prefix_update(f0, p as int, f0[p as int] + 1, n0);
                                    lemma_sum_prefix_frame(
                                        self.agg.direct_files_true(),
                                        f0.update(p as int, f0[p as int] + 1),
                                        n0,
                                    );
                                    lemma_sum_prefix_frame(
                                        self.agg.direct_dirs_true(),
                                        pre.agg.direct_dirs_true(),
                                        n0,
                                    );
                                }
                            },
                            None => {
                            },
                        }
                    },
                    None => {
                    },
                }
            }
        }
        let sleep_ms: u64 = match &self.throttle {
            Some(t) => {
                if t.sleep_ms > 0 && self.processed % t.every_entries == 0 {
                    t.sleep_ms
                } else {
                    0
                }
            },
            None => 0,
        };
        let elapsed = if now_ms >= self.last_emit_ms {
            now_ms - self.last_emit_ms
        } else {
            0
        };
        let due = self.processed % self.emit_every == 0 || (now_ms >= self.last_emit_ms && elapsed
            >= self.emit_interval_ms);
        let mut event: Option<ScanEvent> = None;
        if due {
            let largest = self.top.entries();
            let id = clone_opt_string(&self.id);
            let duration = if now_ms >= self.start_ms {
                now_ms - self.start_ms
            } else {
                0
            };
            let summary = render_summary(&self.agg, &largest, id, duration, true);
            proof {
                assert(summary.total_bytes as int == cap64(sum_u64(self.accepted@)));
            }
            if summary.total_bytes >= self.last_emitted_bytes {
                self.last_emitted_bytes = summary.total_bytes;
                self.last_emit_ms = now_ms;
                proof {
                    self.progress_log@ = self.progress_log@.push(summary.total_bytes);
                    self.events@ = self.events@.push(EventKind::Progress);
                }
                event = Some(ScanEvent::Progress(summary));
            }
        }
        StepOutcome { event, sleep_ms }
    }

    /// Note an observed cancellation: emits the one cancellation event and
    /// leaves the running phase for good.
    pub fn cancelled(&mut self, message: &str) -> (ev: ScanEvent)
        requires
            old(self).wf(),
            old(self).phase == EnginePhase::Running,
        ensures
            final(self).wf(),
            final(self).phase == EnginePhase::Cancelled,
            final(self).events@ == old(self).events@.push(EventKind::Cancelled),
            final(self).root == old(self).root,
            final(self).filter == old(self).filter,
            final(self).id == old(self).id,
            final(self).agg == old(self).agg,
            final(self).top == old(self).top,
            final(self).accepted == old(self).accepted,
            final(self).progress_log == old(self).progress_log,
            ev is Cancelled,
            ev->Cancelled_0@ == message@,
    {
        self.phase = EnginePhase::Cancelled;
        proof {
            self.events@ = self.events@.push(EventKind::Cancelled);
        }
        ScanEvent::Cancelled(message.to_owned())
    }

    /// Complete the traversal: renders the full, unbounded final summary.
    /// Its totals are exactly the (capped) sum of the accepted file sizes,
    /// the count of accepted files, and the count of registered directories
    /// below the root.
    pub fn finish(&mut self, now_ms: u64) -> (ev: ScanEvent)
        requires
            old(self).wf(),
            old(self).phase == EnginePhase::Running,
        ensures
            final(self).wf(),
            final(self).phase == EnginePhase::Done,
            final(self).events@ == old(self).events@.push(EventKind::Complete),
            final(self).root == old(self).root,
            final(self).filter == old(self).filter,
            final(self).id == old(self).id,
            final(self).agg == old(self).agg,
            final(self).top == old(self).top,
            final(self).accepted == old(self).accepted,
            final(self).progress_log == old(self).progress_log,
            ev is Complete,
            ev->Complete_0.total_bytes as int == cap64(sum_u64(old(self).accepted@)),
            ev->Complete_0.file_count as int == cap64(old(self).accepted@.len() as int),
            ev->Complete_0.dir_count as int == cap64(old(self).agg.dirs@.len() - 1),
            ev->Complete_0.largest_files@ == old(self).top.spec_entries(),
            ev->Complete_0.root.path@ == old(self).root@,
            ev->Complete_0.id == old(self).id,
            // The final summary is full-mode: the tree satisfies the size
            // invariant, the root's children are sorted by size descending
            // with name ascending as tie-break and cover every registered
            // child, and the root lists all its recorded direct files.
            crate::snapshot::node_consistent(ev->Complete_0.root),
            crate::snapshot::nodes_sorted(true, ev->Complete_0.root.children@),
            ev->Complete_0.root.children@.len() == old(self).agg.dirs@[0].children@.len(),
            ev->Complete_0.root.files@ == old(self).agg.dirs@[0].files@,
            ev->Complete_0.total_bytes == ev->Complete_0.root.size_bytes,
            ev->Complete_0.file_count == ev->Complete_0.root.file_count,
            ev->Complete_0.dir_count == ev->Complete_0.root.dir_count,
    {
        let largest = self.top.entries();
        let id = clone_opt_string(&self.id);
        let duration = if now_ms >= self.start_ms {
            now_ms - self.start_ms
        } else {
            0
        };
        let summary = render_summary(&self.agg, &largest, id, duration, false);
        self.phase = EnginePhase::Done;
        proof {
            self.events@ = self.events@.push(EventKind::Complete);
        }
        ScanEvent::Complete(summary)
    }

    /// The emitted progress totals never decrease within one scan.
    pub proof fn lemma_progress_monotone(&self)
        requires
            self.wf(),
        ensures
            forall|i: int, j: int|
                0 <= i < j < self.progress_log@.len() ==> self.progress_log@[i]
                    <= self.progress_log@[j],
    {
    }

    /// Cancellation is final and unique: once cancelled, the engine has
    /// emitted exactly one cancellation event, after every other event it
    /// ever emitted, and no progress or completion event follows it.
    pub proof fn lemma_cancelled_once(&self)
        requires
            self.wf(),
            self.phase == EnginePhase::Cancelled,
        ensures
            self.events@.len() > 0,
            self.events@.last() == EventKind::Cancelled,
            forall|i: int|
                0 <= i < self.events@.len() - 1 ==> self.events@[i] == EventKind::Progress,
    {
    }

    /// The largest-files tracker holds min(10, number of accepted files of
    /// positive size) entries, sorted by size descending; every kept entry is
    /// one of the offered file records (its path, name and size are a real
    /// accepted file's); and when all accepted positive sizes are pairwise
    /// distinct the order is strictly descending.
    pub proof fn lemma_top_files(&self)
        requires
            self.wf(),
        ensures
            sorted_desc(sizes_of(self.top.spec_entries())),
            self.top.spec_entries().len() == min(10, positives(self.accepted@).len() as int),
            sizes_of(self.top.offered_files()) == positives(self.accepted@),
            forall|f: ScanFile|
                (#[trigger] self.top.spec_entries().to_multiset().count(f))
                    <= self.top.offered_files().to_multiset().count(f),
            positives(self.accepted@).no_duplicates() ==> strictly_desc(
                sizes_of(self.top.spec_entries()),
            ),
    {
        self.top.lemma_wf_props();
        if positives(self.accepted@).no_duplicates() {
            self.top.lemma_strict_when_distinct();
        }
    }
}

/// An owned copy of an optional string, equal to the original.
pub fn clone_opt_string(o: &Option<String>) -> (r: Option<String>)
    ensures
        r == *o,
{
    match o {
        Some(s) => Some(s.clone()),
        None => None,
    }
}

} // verus!
