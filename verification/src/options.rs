//! Scan options: priority mode, throttle level, and the tuning tables they
//! select (worker count, progress-emission cadence, throttle cadence).

use vstd::prelude::*;
use crate::filter::{CompiledFilter, FilterError, ScanFilters};

verus! {

/// Controls traversal parallelism and progress-emission cadence.
#[derive(Clone, Copy, Debug, PartialEq, Eq, Structural)]
pub enum ScanPriorityMode {
    Performance,
    Balanced,
    Low,
}

impl Default for ScanPriorityMode {
    fn default() -> (r: ScanPriorityMode)
        ensures
            r == ScanPriorityMode::Balanced,
    {
        ScanPriorityMode::Balanced
    }
}

/// Controls deliberate sleep-based backpressure during traversal.
#[derive(Clone, Copy, Debug, PartialEq, Eq, Structural)]
pub enum ScanThrottleLevel {
    Off,
    Low,
    Medium,
    High,
}

impl Default for ScanThrottleLevel {
    fn default() -> (r: ScanThrottleLevel)
        ensures
            r == ScanThrottleLevel::Off,
    {
        ScanThrottleLevel::Off
    }
}

/// Everything a caller can configure about one scan.
pub struct ScanOptions {
    pub priority_mode: ScanPriorityMode,
    pub throttle_level: ScanThrottleLevel,
    pub filters: ScanFilters,
}

impl Default for ScanOptions {
    fn default() -> (r: ScanOptions)
        ensures
            r.priority_mode == ScanPriorityMode::Balanced,
            r.throttle_level == ScanThrottleLevel::Off,
            r.filters.include_extensions@.len() == 0,
            r.filters.exclude_extensions@.len() == 0,
            r.filters.include_names@.len() == 0,
            r.filters.exclude_names@.len() == 0,
            r.filters.min_size_bytes is None,
            r.filters.max_size_bytes is None,
            r.filters.include_regex is None,
            r.filters.exclude_regex is None,
            r.filters.include_paths@.len() == 0,
            r.filters.exclude_paths@.len() == 0,
    {
        ScanOptions {
            priority_mode: ScanPriorityMode::default(),
            throttle_level: ScanThrottleLevel::default(),
            filters: ScanFilters::none(),
        }
    }
}

/// How often progress may be emitted: after every `emit_every` entries, or
/// when `emit_interval_ms` has passed since the last emission.
pub struct EmitCadence {
    pub emit_every: u64,
    pub emit_interval_ms: u64,
}

/// The emission-cadence table by priority mode.
pub fn emit_cadence(mode: ScanPriorityMode) -> (r: EmitCadence)
    ensures
        mode == ScanPriorityMode::Performance ==> r.emit_every == 5000 && r.emit_interval_ms
            == 500,
        mode == ScanPriorityMode::Balanced ==> r.emit_every == 10000 && r.emit_interval_ms
            == 1000,
        mode == ScanPriorityMode::Low ==> r.emit_every == 20000 && r.emit_interval_ms == 2000,
        r.emit_every > 0,
{
    match mode {
        ScanPriorityMode::Performance => EmitCadence { emit_every: 5000, emit_interval_ms: 500 },
        ScanPriorityMode::Balanced => EmitCadence { emit_every: 10000, emit_interval_ms: 1000 },
        ScanPriorityMode::Low => EmitCadence { emit_every: 20000, emit_interval_ms: 2000 },
    }
}

/// Cooperative backpressure: sleep `sleep_ms` after every `every_entries`
/// processed entries.
pub struct ThrottlePlan {
    pub every_entries: u64,
    pub sleep_ms: u64,
}

/// The throttle table by level; `Off` sleeps never.
pub fn throttle_plan(level: ScanThrottleLevel) -> (r: Option<ThrottlePlan>)
    ensures
        level == ScanThrottleLevel::Off ==> r is None,
        level == ScanThrottleLevel::Low ==> r is Some && r->0.every_entries == 1200
            && r->0.sleep_ms == 1,
        level == ScanThrottleLevel::Medium ==> r is Some && r->0.every_entries == 600
            && r->0.sleep_ms == 3,
        level == ScanThrottleLevel::High ==> r is Some && r->0.every_entries == 250
            && r->0.sleep_ms == 6,
        r is Some ==> r->0.every_entries > 0,
{
    match level {
        ScanThrottleLevel::Off => None,
        ScanThrottleLevel::Low => Some(ThrottlePlan { every_entries: 1200, sleep_ms: 1 }),
        ScanThrottleLevel::Medium => Some(ThrottlePlan { every_entries: 600, sleep_ms: 3 }),
        ScanThrottleLevel::High => Some(ThrottlePlan { every_entries: 250, sleep_ms: 6 }),
    }
}

/// Everything one traversal runs with: the compiled filter and the tuning
/// the mode and throttle level select.
pub struct ScanConfig {
    pub filter: CompiledFilter,
    pub emit_every: u64,
    pub emit_interval_ms: u64,
    pub throttle: Option<ThrottlePlan>,
    pub workers: usize,
}

/// Compile the options into a runnable configuration. Fails exactly when the
/// filter criteria are invalid; otherwise the cadence, throttle and worker
/// tables are applied as specified.
pub fn build_scan_config(options: &ScanOptions, available: usize) -> (r: Result<
    ScanConfig,
    FilterError,
>)
    requires
        available >= 1,
    ensures
        r is Err <==> ({
            let f = options.filters;
            ||| (f.min_size_bytes is Some && f.max_size_bytes is Some && f.min_size_bytes->0
                > f.max_size_bytes->0)
            ||| (f.include_regex is Some && !crate::filter::regex_valid(f.include_regex->0@))
            ||| (f.exclude_regex is Some && !crate::filter::regex_valid(f.exclude_regex->0@))
        }),
        r is Err ==> r->Err_0 == (if options.filters.min_size_bytes is Some
            && options.filters.max_size_bytes is Some && options.filters.min_size_bytes->0
            > options.filters.max_size_bytes->0 {
            FilterError::InvalidRange
        } else {
            FilterError::InvalidPattern
        }),
        r is Ok ==> {
            let c = r->Ok_0;
            let f = options.filters;
            &&& c.filter.wf()
            // The compiled filter is exactly the request's criteria,
            // normalized (see [`ScanFilters::compile`]).
            &&& c.filter.min_size_bytes == f.min_size_bytes
            &&& c.filter.max_size_bytes == f.max_size_bytes
            &&& crate::filter::normalized_ext(
                crate::filter::views(f.include_extensions@),
                crate::filter::views(c.filter.include_extensions@),
            )
            &&& crate::filter::normalized_ext(
                crate::filter::views(f.exclude_extensions@),
                crate::filter::views(c.filter.exclude_extensions@),
            )
            &&& crate::filter::normalized(
                crate::filter::views(f.include_names@),
                crate::filter::views(c.filter.include_names@),
            )
            &&& crate::filter::normalized(
                crate::filter::views(f.exclude_names@),
                crate::filter::views(c.filter.exclude_names@),
            )
            &&& crate::filter::normalized(
                crate::filter::views(f.include_paths@),
                crate::filter::views(c.filter.include_paths@),
            )
            &&& crate::filter::normalized(
                crate::filter::views(f.exclude_paths@),
                crate::filter::views(c.filter.exclude_paths@),
            )
            &&& (c.filter.include_regex is Some <==> f.include_regex is Some)
            &&& (c.filter.include_regex is Some ==> c.filter.include_regex->0.spec_pattern()
                == f.include_regex->0@)
            &&& (c.filter.exclude_regex is Some <==> f.exclude_regex is Some)
            &&& (c.filter.exclude_regex is Some ==> c.filter.exclude_regex->0.spec_pattern()
                == f.exclude_regex->0@)
            &&& c.emit_every > 0
            &&& (options.priority_mode == ScanPriorityMode::Performance ==> c.emit_every == 5000
                && c.emit_interval_ms == 500 && c.workers == available)
            &&& (options.priority_mode == ScanPriorityMode::Balanced ==> c.emit_every == 10000
                && c.emit_interval_ms == 1000 && c.workers as int == (available + 1) / 2)
            &&& (options.priority_mode == ScanPriorityMode::Low ==> c.emit_every == 20000
                && c.emit_interval_ms == 2000 && c.workers == 1)
            &&& (options.throttle_level == ScanThrottleLevel::Off ==> c.throttle is None)
            &&& (options.throttle_level != ScanThrottleLevel::Off ==> c.throttle is Some
                && c.throttle->0.every_entries > 0)
            &&& (options.throttle_level == ScanThrottleLevel::Low ==> c.throttle
                == Some(ThrottlePlan { every_entries: 1200, sleep_ms: 1 }))
            &&& (options.throttle_level == ScanThrottleLevel::Medium ==> c.throttle
                == Some(ThrottlePlan { every_entries: 600, sleep_ms: 3 }))
            &&& (options.throttle_level == ScanThrottleLevel::High ==> c.throttle
                == Some(ThrottlePlan { every_entries: 250, sleep_ms: 6 }))
            &&& c.workers >= 1
        },
{
    let filter = match options.filters.compile() {
        Ok(f) => f,
        Err(e) => {
            return Err(e);
        },
    };
    let cadence = emit_cadence(options.priority_mode);
    let throttle = throttle_plan(options.throttle_level);
    let workers = worker_count(options.priority_mode, available);
    Ok(
        ScanConfig {
            filter,
            emit_every: cadence.emit_every,
            emit_interval_ms: cadence.emit_interval_ms,
            throttle,
            workers,
        },
    )
}

/// How many traversal workers a mode uses, given the machine's available
/// parallelism: all of it, half rounded up, or exactly one.
pub fn worker_count(mode: ScanPriorityMode, available: usize) -> (r: usize)
    requires
        available >= 1,
    ensures
        mode == ScanPriorityMode::Performance ==> r == available,
        mode == ScanPriorityMode::Balanced ==> r == (available + 1) / 2,
        mode == ScanPriorityMode::Low ==> r == 1,
        r >= 1,
{
    match mode {
        ScanPriorityMode::Performance => available,
        ScanPriorityMode::Balanced => available / 2 + available % 2,
        ScanPriorityMode::Low => 1,
    }
}

} // verus!
