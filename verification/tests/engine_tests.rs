use dragabyte::engine::{EnginePhase, FsEntry, ScanEngine};
use dragabyte::session::SessionRegistry;
use dragabyte::filter::ScanFilters;
use dragabyte::options::{
    ScanOptions, ScanPriorityMode, ScanThrottleLevel, build_scan_config, emit_cadence,
    throttle_plan, worker_count,
};
use dragabyte::types::ScanEvent;

fn dir(path: &str) -> FsEntry {
    FsEntry { path: path.to_string(), is_dir: true, is_file: false, size_bytes: 0 }
}

fn file(path: &str, size: u64) -> FsEntry {
    FsEntry { path: path.to_string(), is_dir: false, is_file: true, size_bytes: size }
}

fn engine_with(options: ScanOptions, root: &str) -> ScanEngine {
    let config = build_scan_config(&options, 4).expect("options should compile");
    ScanEngine::new(root, config, None, 0)
}

fn default_engine(root: &str) -> ScanEngine {
    engine_with(ScanOptions::default(), root)
}

#[test]
fn totals_are_sum_of_accepted_files() {
    let mut e = default_engine("/r");
    e.step(&dir("/r"), 0);
    e.step(&dir("/r/sub"), 0);
    e.step(&file("/r/a.txt", 10), 0);
    e.step(&file("/r/sub/b.txt", 20), 0);
    e.step(&file("/r/sub/c.bin", 30), 0);
    let ev = e.finish(5);
    match ev {
        ScanEvent::Complete(s) => {
            assert_eq!(s.total_bytes, 60);
            assert_eq!(s.file_count, 3);
            assert_eq!(s.dir_count, 1);
            assert_eq!(s.root.path, "/r");
            assert_eq!(s.root.size_bytes, 60);
        }
        _ => panic!("expected a completion event"),
    }
}

#[test]
fn totals_respect_the_filter() {
    let mut options = ScanOptions::default();
    options.filters = ScanFilters {
        include_extensions: vec!["txt".to_string()],
        ..ScanFilters::none()
    };
    let mut e = engine_with(options, "/r");
    e.step(&dir("/r"), 0);
    e.step(&file("/r/a.txt", 10), 0);
    e.step(&file("/r/b.bin", 999), 0);
    e.step(&file("/r/c.txt", 20), 0);
    let ev = e.finish(1);
    match ev {
        ScanEvent::Complete(s) => {
            assert_eq!(s.total_bytes, 30);
            assert_eq!(s.file_count, 2);
        }
        _ => panic!("expected a completion event"),
    }
}

#[test]
fn skipped_directory_prunes_its_subtree() {
    let mut options = ScanOptions::default();
    options.filters = ScanFilters {
        exclude_names: vec!["skipme".to_string()],
        ..ScanFilters::none()
    };
    let mut e = engine_with(options, "/r");
    e.step(&dir("/r"), 0);
    e.step(&dir("/r/skipme"), 0);
    e.step(&file("/r/skipme/huge.bin", 1000), 0);
    e.step(&dir("/r/skipme/deeper"), 0);
    e.step(&file("/r/skipme/deeper/x", 50), 0);
    e.step(&file("/r/kept.bin", 7), 0);
    let ev = e.finish(1);
    match ev {
        ScanEvent::Complete(s) => {
            assert_eq!(s.total_bytes, 7);
            assert_eq!(s.file_count, 1);
            assert_eq!(s.dir_count, 0);
        }
        _ => panic!("expected a completion event"),
    }
}

#[test]
fn largest_files_keeps_ten_strictly_descending() {
    let mut e = default_engine("/r");
    e.step(&dir("/r"), 0);
    for i in 1..=15u64 {
        e.step(&file(&format!("/r/f{}", i), i * 100), 0);
    }
    e.step(&file("/r/empty", 0), 0);
    let ev = e.finish(1);
    match ev {
        ScanEvent::Complete(s) => {
            assert_eq!(s.largest_files.len(), 10);
            for w in s.largest_files.windows(2) {
                assert!(w[0].size_bytes > w[1].size_bytes);
            }
            assert_eq!(s.largest_files[0].size_bytes, 1500);
            assert_eq!(s.largest_files[9].size_bytes, 600);
        }
        _ => panic!("expected a completion event"),
    }
}

#[test]
fn largest_files_counts_only_positive_sizes() {
    let mut e = default_engine("/r");
    e.step(&dir("/r"), 0);
    e.step(&file("/r/a", 0), 0);
    e.step(&file("/r/b", 5), 0);
    e.step(&file("/r/c", 3), 0);
    let ev = e.finish(1);
    match ev {
        ScanEvent::Complete(s) => {
            assert_eq!(s.largest_files.len(), 2);
            assert_eq!(s.largest_files[0].size_bytes, 5);
            assert_eq!(s.largest_files[1].size_bytes, 3);
            assert_eq!(s.file_count, 3);
        }
        _ => panic!("expected a completion event"),
    }
}

#[test]
fn progress_totals_never_decrease() {
    let mut options = ScanOptions::default();
    options.priority_mode = ScanPriorityMode::Performance;
    let mut e = engine_with(options, "/r");
    let mut now: u64 = 0;
    let mut totals: Vec<u64> = Vec::new();
    e.step(&dir("/r"), now);
    for i in 1..=40u64 {
        // Force the time-based emission condition at every step.
        now += 1000;
        let out = e.step(&file(&format!("/r/f{}", i), i), now);
        if let Some(ScanEvent::Progress(s)) = out.event {
            totals.push(s.total_bytes);
        }
    }
    assert!(totals.len() >= 2, "the cadence should have emitted progress");
    for w in totals.windows(2) {
        assert!(w[0] <= w[1]);
    }
}

#[test]
fn cancelled_engine_emits_one_cancel_event() {
    let mut e = default_engine("/r");
    e.step(&dir("/r"), 0);
    e.step(&file("/r/a", 10), 0);
    let ev = e.cancelled("Scan cancelled");
    match ev {
        ScanEvent::Cancelled(msg) => assert_eq!(msg, "Scan cancelled"),
        _ => panic!("expected a cancellation event"),
    }
    assert_eq!(e.phase, EnginePhase::Cancelled);
}

#[test]
fn compact_progress_sorts_children_by_name() {
    let mut options = ScanOptions::default();
    options.priority_mode = ScanPriorityMode::Performance;
    let mut e = engine_with(options, "/r");
    e.step(&dir("/r"), 0);
    e.step(&dir("/r/zeta"), 0);
    e.step(&dir("/r/alpha"), 0);
    e.step(&dir("/r/mid"), 0);
    let out = e.step(&file("/r/alpha/f", 5), 10_000);
    let s = match out.event {
        Some(ScanEvent::Progress(s)) => s,
        _ => panic!("a time-due progress event was expected"),
    };
    let names: Vec<&str> = s.root.children.iter().map(|c| c.name.as_str()).collect();
    assert_eq!(names, vec!["alpha", "mid", "zeta"]);
    // Compact mode reports no direct files.
    assert_eq!(s.root.files.len(), 0);
}

#[test]
fn final_summary_sorts_children_by_size_then_name() {
    let mut e = default_engine("/r");
    e.step(&dir("/r"), 0);
    e.step(&dir("/r/small"), 0);
    e.step(&dir("/r/big"), 0);
    e.step(&dir("/r/alsobig"), 0);
    e.step(&file("/r/small/f", 1), 0);
    e.step(&file("/r/big/f", 100), 0);
    e.step(&file("/r/alsobig/f", 100), 0);
    let ev = e.finish(1);
    match ev {
        ScanEvent::Complete(s) => {
            let names: Vec<&str> = s.root.children.iter().map(|c| c.name.as_str()).collect();
            assert_eq!(names, vec!["alsobig", "big", "small"]);
            assert_eq!(s.root.children[0].size_bytes, 100);
            // Every node's counts are its direct stats plus its children's.
            assert_eq!(
                s.root.size_bytes,
                s.root.children.iter().map(|c| c.size_bytes).sum::<u64>()
            );
        }
        _ => panic!("expected a completion event"),
    }
}

#[test]
fn emit_cadence_table_is_exact() {
    let p = emit_cadence(ScanPriorityMode::Performance);
    assert_eq!((p.emit_every, p.emit_interval_ms), (5000, 500));
    let b = emit_cadence(ScanPriorityMode::Balanced);
    assert_eq!((b.emit_every, b.emit_interval_ms), (10000, 1000));
    let l = emit_cadence(ScanPriorityMode::Low);
    assert_eq!((l.emit_every, l.emit_interval_ms), (20000, 2000));
}

#[test]
fn throttle_table_is_exact() {
    assert!(throttle_plan(ScanThrottleLevel::Off).is_none());
    let low = throttle_plan(ScanThrottleLevel::Low).unwrap();
    assert_eq!((low.every_entries, low.sleep_ms), (1200, 1));
    let med = throttle_plan(ScanThrottleLevel::Medium).unwrap();
    assert_eq!((med.every_entries, med.sleep_ms), (600, 3));
    let high = throttle_plan(ScanThrottleLevel::High).unwrap();
    assert_eq!((high.every_entries, high.sleep_ms), (250, 6));
}

#[test]
fn worker_count_follows_the_mode() {
    assert_eq!(worker_count(ScanPriorityMode::Performance, 8), 8);
    assert_eq!(worker_count(ScanPriorityMode::Balanced, 8), 4);
    assert_eq!(worker_count(ScanPriorityMode::Balanced, 7), 4);
    assert_eq!(worker_count(ScanPriorityMode::Low, 8), 1);
}

#[test]
fn throttle_asks_for_sleep_on_cadence() {
    let mut options = ScanOptions::default();
    options.throttle_level = ScanThrottleLevel::High;
    let mut e = engine_with(options, "/r");
    let mut slept = 0u64;
    e.step(&dir("/r"), 0);
    for i in 0..500u64 {
        let out = e.step(&file(&format!("/r/f{}", i), 1), 0);
        slept += out.sleep_ms;
    }
    // 501 entries at one sleep of 6ms per 250 entries.
    assert_eq!(slept, 12);
}

#[test]
fn duplicate_directory_entries_register_once() {
    let mut e = default_engine("/r");
    e.step(&dir("/r"), 0);
    e.step(&dir("/r/sub"), 0);
    e.step(&dir("/r/sub"), 0);
    let ev = e.finish(1);
    match ev {
        ScanEvent::Complete(s) => assert_eq!(s.dir_count, 1),
        _ => panic!("expected a completion event"),
    }
}

#[test]
fn session_registry_is_one_scan_per_key() {
    let mut reg = SessionRegistry::new();
    let first = reg.begin("window-1");
    assert!(!first.is_set());
    // A second scan under the same key signals the first one.
    let second = reg.begin("window-1");
    assert!(first.is_set());
    assert!(!second.is_set());
    // Cancelling by key signals the registered flag.
    assert!(reg.cancel("window-1"));
    assert!(second.is_set());
    assert!(!reg.cancel("window-2"));
    // Teardown removes the entry.
    reg.finish("window-1");
    assert!(!reg.cancel("window-1"));
}
