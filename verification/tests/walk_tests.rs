use std::io::Write;
use base64::Engine;

use dragabyte::options::{ScanOptions, build_scan_config};
use dragabyte::types::ScanEvent;
use dragabyte::walk::{CancelFlag, RecordingSink, run_scan};

struct Tree {
    root: tempfile::TempDir,
    // Held so the files live for the duration of the test.
    files: Vec<tempfile::NamedTempFile>,
    subdirs: Vec<tempfile::TempDir>,
}

fn build_tree(sizes: &[usize], empty_subdirs: usize) -> Tree {
    let root = tempfile::tempdir().expect("temp root");
    let mut files = Vec::new();
    for size in sizes {
        let mut f = tempfile::Builder::new()
            .prefix("data")
            .tempfile_in(root.path())
            .expect("temp file");
        f.write_all(&vec![b'x'; *size]).expect("write");
        f.flush().expect("flush");
        files.push(f);
    }
    let mut subdirs = Vec::new();
    for _ in 0..empty_subdirs {
        subdirs.push(
            tempfile::Builder::new()
                .prefix("sub")
                .tempdir_in(root.path())
                .expect("temp subdir"),
        );
    }
    Tree { root, files, subdirs }
}

#[test]
fn end_to_end_scan_counts_the_tree() {
    let tree = build_tree(&[10, 20, 30], 1);
    let config = build_scan_config(&ScanOptions::default(), 2).unwrap();
    let cancel = CancelFlag::new();
    let mut sink = RecordingSink::new();
    let root_path = tree.root.path().to_string_lossy().to_string();
    run_scan(&root_path, config, &cancel, &mut sink, Some("e2e".to_string()));
    assert!(!sink.events.is_empty());
    match sink.events.last().unwrap() {
        ScanEvent::Complete(s) => {
            assert_eq!(s.total_bytes, 60);
            assert_eq!(s.file_count, 3);
            assert_eq!(s.dir_count, 1);
            assert_eq!(s.id.as_deref(), Some("e2e"));
            assert_eq!(s.largest_files.len(), 3);
            assert_eq!(s.largest_files[0].size_bytes, 30);
        }
        other => panic!("expected a completion event, got {}", other.event_name()),
    }
    drop(tree);
}

#[test]
fn cancelled_scan_emits_exactly_one_cancel_and_nothing_after() {
    let tree = build_tree(&[10, 20], 0);
    let config = build_scan_config(&ScanOptions::default(), 1).unwrap();
    let cancel = CancelFlag::new();
    cancel.set();
    let mut sink = RecordingSink::new();
    let root_path = tree.root.path().to_string_lossy().to_string();
    run_scan(&root_path, config, &cancel, &mut sink, None);
    let cancels = sink
        .events
        .iter()
        .filter(|e| matches!(e, ScanEvent::Cancelled(_)))
        .count();
    assert_eq!(cancels, 1, "exactly one cancellation event");
    assert!(
        matches!(sink.events.last().unwrap(), ScanEvent::Cancelled(_)),
        "nothing is emitted after the cancellation"
    );
    let completes = sink
        .events
        .iter()
        .filter(|e| matches!(e, ScanEvent::Complete(_)))
        .count();
    assert_eq!(completes, 0);
    drop(tree);
}

#[test]
fn cancel_handles_share_the_flag() {
    let a = CancelFlag::new();
    let b = a.handle();
    assert!(!a.is_set());
    b.set();
    assert!(a.is_set());
}

#[test]
fn read_probes_and_decision_match_real_files() {
    let tree = build_tree(&[10], 0);
    let file_path = tree.files[0].path().to_string_lossy().to_string();
    assert!(dragabyte::disk::path_exists(&file_path));
    assert!(dragabyte::disk::path_is_file(&file_path));
    assert_eq!(dragabyte::disk::file_size(&file_path), Some(10));
    let root_path = tree.root.path().to_string_lossy().to_string();
    assert!(!dragabyte::disk::path_is_file(&root_path));
    assert!(!dragabyte::disk::path_exists("/no/such/path/anywhere"));

    // A six-megabyte file is refused; the ten-byte file round-trips.
    let mut big = tempfile::Builder::new()
        .prefix("big")
        .tempfile_in(tree.root.path())
        .unwrap();
    big.write_all(&vec![0u8; 6 * 1024 * 1024]).unwrap();
    big.flush().unwrap();
    let big_path = big.path().to_string_lossy().to_string();
    let size = dragabyte::disk::file_size(&big_path).unwrap();
    assert_eq!(
        dragabyte::protocol::read_decision(true, true, size),
        Some(dragabyte::protocol::ErrorCode::FileTooLarge)
    );

    let small_bytes = std::io::Read::bytes(tree.files[0].reopen().unwrap())
        .collect::<Result<Vec<u8>, _>>()
        .unwrap();
    assert_eq!(dragabyte::protocol::read_decision(true, true, 10), None);
    let payload = dragabyte::protocol::read_payload(&file_path, &small_bytes);
    let decoded = base64::prelude::BASE64_STANDARD.decode(payload.content.as_bytes()).unwrap();
    assert_eq!(decoded, small_bytes);
    assert_eq!(decoded.len(), 10);
}

#[test]
fn disk_usage_reports_the_volume() {
    let tree = build_tree(&[], 0);
    let root_path = tree.root.path().to_string_lossy().to_string();
    let snap = dragabyte::disk::compute_disk_usage(&root_path).expect("volume stats");
    assert_eq!(snap.path, root_path);
    assert!(snap.total_bytes > 0);
    assert!(snap.free_bytes <= snap.total_bytes);
    assert!(matches!(
        dragabyte::disk::compute_disk_usage("/no/such/path/anywhere"),
        Err(dragabyte::protocol::ErrorCode::PathNotFound)
    ));
}
