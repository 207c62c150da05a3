//! The traversal driver: the trusted boundary to the parallel directory
//! walker and the monotonic clock, the shared cancellation flag, and
//! `run_scan`, which feeds the engine one entry at a time and hands every
//! event and pause to the caller's sink.

use vstd::prelude::*;
use std::sync::Arc;
use std::sync::atomic::{AtomicBool, Ordering};
use crate::engine::{EnginePhase, FsEntry, ScanEngine};
use crate::options::ScanConfig;
use crate::types::ScanEvent;

verus! {

/// Holds the outside walker's streaming iterator. Verus cannot declare the
/// iterator type itself (its type parameter is bound by an outside trait), so
/// the whole handle is opaque; only the trusted functions below touch it.
#[verifier::external_body]
pub struct WalkStream {
    it: jwalk::DirEntryIter<((), ())>,
}

#[verifier::external_type_specification]
#[verifier::external_body]
pub struct ExInstant(std::time::Instant);

/// Relies on jwalk::WalkDirGeneric::new, `parallelism(Serial)` and
/// `into_iter`: a streamed, single-threaded walk of the subtree at `root`,
/// with the walker's defaults (hidden entries are not delivered).
#[verifier::external_body]
fn open_walk_serial(root: &str) -> (r: WalkStream)
{
    WalkStream { it: jwalk::WalkDir::new(root).parallelism(jwalk::Parallelism::Serial).into_iter() }
}

/// Relies on jwalk::WalkDirGeneric::new, `parallelism(RayonNewPool)` and
/// `into_iter`: a streamed walk of the subtree at `root` on a pool of
/// `workers` threads, with the walker's defaults (hidden entries are not
/// delivered).
#[verifier::external_body]
fn open_walk_pool(root: &str, workers: usize) -> (r: WalkStream)
{
    WalkStream {
        it: jwalk::WalkDir::new(root).parallelism(
            jwalk::Parallelism::RayonNewPool(workers),
        ).into_iter(),
    }
}

/// One walked entry as the walker hands it over: plain values, with the file
/// size still `None` when its metadata could not be read.
pub struct RawEntry {
    pub path: String,
    pub is_dir: bool,
    pub is_file: bool,
    pub size_bytes: Option<u64>,
}

/// Relies on jwalk's iterator (`DirEntryIter::next`) and entry accessors
/// (`path`, `file_type`, `metadata`): the next walked entry as plain values;
/// a failed enumeration gives `Err`. What comes back depends on the disk, so
/// nothing more is assumed.
#[verifier::external_body]
fn next_entry(s: &mut WalkStream) -> (r: Option<Result<RawEntry, ()>>)
{
    match s.it.next() {
        None => None,
        Some(Err(_)) => Some(Err(())),
        Some(Ok(e)) => {
            let ft = e.file_type();
            let size = match (ft.is_file(), e.metadata()) { (true, Ok(m)) => Some(m.len()), _ => None };
            let path = e.path().to_string_lossy().into_owned();
            Some(Ok(RawEntry { path, is_dir: ft.is_dir(), is_file: ft.is_file(), size_bytes: size }))
        },
    }
}

/// An unreadable size counts as zero rather than aborting the scan.
fn entry_of(raw: RawEntry) -> (r: FsEntry)
    ensures
        r.path == raw.path,
        r.is_dir == raw.is_dir,
        r.is_file == raw.is_file,
        r.size_bytes == (match raw.size_bytes {
            Some(s) => s,
            None => 0u64,
        }),
{
    FsEntry {
        path: raw.path,
        is_dir: raw.is_dir,
        is_file: raw.is_file,
        size_bytes: match raw.size_bytes {
            Some(s) => s,
            None => 0,
        },
    }
}

/// Relies on std::time::Instant::now: a fresh monotonic timestamp.
#[verifier::external_body]
fn clock_now() -> (r: std::time::Instant)
{
    std::time::Instant::now()
}

/// Relies on std::time::Instant::elapsed: the time since `start`.
#[verifier::external_body]
fn instant_elapsed(start: &std::time::Instant) -> (r: std::time::Duration)
{
    start.elapsed()
}

/// Relies on std::time::Duration::as_millis: the duration in milliseconds,
/// saturated to `u64`.
#[verifier::external_body]
fn duration_ms(d: &std::time::Duration) -> (r: u64)
{
    let ms = d.as_millis();
    if ms > u64::MAX as u128 {
        u64::MAX
    } else {
        ms as u64
    }
}

/// Relies on std::sync::Arc::clone: another handle to the same shared flag.
#[verifier::external_body]
fn arc_clone_flag(a: &Arc<AtomicBool>) -> (r: Arc<AtomicBool>)
{
    Arc::clone(a)
}

/// A shared cooperative cancellation flag: set once, observed by the scan at
/// every visited entry. What a load observes depends on other threads, so the
/// engine is verified for either answer.
pub struct CancelFlag {
    pub inner: Arc<AtomicBool>,
}

impl CancelFlag {
    /// A fresh, unset flag.
    pub fn new() -> CancelFlag {
        CancelFlag { inner: Arc::new(AtomicBool::new(false)) }
    }

    /// Another handle to the same flag.
    pub fn handle(&self) -> CancelFlag {
        CancelFlag { inner: arc_clone_flag(&self.inner) }
    }

    /// Request cancellation.
    pub fn set(&self) {
        self.inner.store(true, Ordering::SeqCst);
    }

    /// Whether cancellation was requested, as of this load.
    pub fn is_set(&self) -> bool {
        self.inner.load(Ordering::Relaxed)
    }
}

/// Where scan events and pauses go: the embedding shell, a hub broadcast, or
/// a recording for inspection.
pub trait ScanSink {
    fn emit(&mut self, event: ScanEvent);

    fn pause(&mut self, ms: u64);
}

/// A sink that stores everything it is handed, in order.
pub struct RecordingSink {
    pub events: Vec<ScanEvent>,
    pub pauses: Vec<u64>,
}

impl RecordingSink {
    /// An empty recording.
    pub fn new() -> (r: RecordingSink)
        ensures
            r.events@.len() == 0,
            r.pauses@.len() == 0,
    {
        RecordingSink { events: Vec::new(), pauses: Vec::new() }
    }
}

impl ScanSink for RecordingSink {
    fn emit(&mut self, event: ScanEvent) {
        self.events.push(event);
    }

    fn pause(&mut self, ms: u64) {
        self.pauses.push(ms);
    }
}

/// Run one traversal: walk the subtree at `root`, feed every delivered entry
/// to the engine, and hand each event and pause to the sink. The cancellation
/// flag is checked once per entry; on a set flag the scan emits exactly one
/// cancellation event and stops. An uncancelled walk ends with exactly one
/// completion event carrying the final summary. The returned engine carries
/// the run's history, with the invariants of [`ScanEngine::wf`].
pub fn run_scan<S: ScanSink>(
    root: &str,
    config: ScanConfig,
    cancel: &CancelFlag,
    sink: &mut S,
    scan_id: Option<String>,
) -> (engine: ScanEngine)
    requires
        config.filter.wf(),
        config.emit_every > 0,
        config.throttle is Some ==> config.throttle->0.every_entries > 0,
    ensures
        engine.wf(),
        engine.phase == EnginePhase::Cancelled || engine.phase == EnginePhase::Done,
        engine.root@ == root@,
        engine.filter == config.filter,
        engine.id == scan_id,
        engine.top.spec_limit() == 10,
{
    let start = clock_now();
    let workers = config.workers;
    let mut engine = ScanEngine::new(root, config, scan_id, 0);
    let mut it = if workers <= 1 {
        open_walk_serial(root)
    } else {
        open_walk_pool(root, workers)
    };
    let mut fuel: u64 = u64::MAX;
    loop
        invariant
            engine.wf(),
            engine.phase == EnginePhase::Running,
            engine.root@ == root@,
            engine.filter == config.filter,
            engine.id == scan_id,
            engine.top.spec_limit() == 10,
        decreases fuel,
    {
        if fuel == 0 {
            break ;
        }
        fuel = fuel - 1;
        if cancel.is_set() {
            let ev = engine.cancelled("Scan cancelled");
            sink.emit(ev);
            return engine;
        }
        match next_entry(&mut it) {
            None => {
                break ;
            },
            Some(Err(_)) => {
            },
            Some(Ok(raw)) => {
                let entry = entry_of(raw);
                let now_ms = duration_ms(&instant_elapsed(&start));
                let out = engine.step(&entry, now_ms);
                if out.sleep_ms > 0 {
                    sink.pause(out.sleep_ms);
                }
                if let Some(ev) = out.event {
                    sink.emit(ev);
                }
            },
        }
    }
    let now_ms = duration_ms(&instant_elapsed(&start));
    let ev = engine.finish(now_ms);
    sink.emit(ev);
    engine
}

} // verus!
