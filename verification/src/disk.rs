//! Disk-usage queries and the filesystem probes the protocol's decisions run
//! on: existence, kind and size of a path, and the volume totals.

use vstd::prelude::*;
use crate::protocol::{ErrorCode, disk_decision};
use crate::types::DiskUsageSnapshot;

verus! {

/// Relies on std::path::Path::exists: whether the path names anything on
/// disk, as of this probe.
#[verifier::external_body]
pub fn path_exists(path: &str) -> (r: bool)
{
    std::path::Path::new(path).exists()
}

/// Relies on std::path::Path::is_file: whether the path names a regular file,
/// as of this probe.
#[verifier::external_body]
pub fn path_is_file(path: &str) -> (r: bool)
{
    std::path::Path::new(path).is_file()
}

/// Relies on std::path::Path::metadata: the file's size in bytes, when its
/// metadata can be read.
#[verifier::external_body]
pub fn file_size(path: &str) -> (r: Option<u64>)
{
    match std::path::Path::new(path).metadata() {
        Ok(m) => Some(m.len()),
        Err(_) => None,
    }
}

/// Relies on fs2::total_space: the total size of the volume containing the
/// path, when the OS reports it.
#[verifier::external_body]
fn volume_total(path: &str) -> (r: Option<u64>)
{
    fs2::total_space(std::path::Path::new(path)).ok()
}

/// Relies on fs2::available_space: the free space of the volume containing
/// the path, when the OS reports it.
#[verifier::external_body]
fn volume_free(path: &str) -> (r: Option<u64>)
{
    fs2::available_space(std::path::Path::new(path)).ok()
}

/// The `disk` action: probe the volume holding `path` and decide the reply by
/// [`disk_decision`]; whatever the probes observed, a success reports the
/// queried path itself.
pub fn compute_disk_usage(path: &str) -> (r: Result<DiskUsageSnapshot, ErrorCode>)
    ensures
        r is Ok ==> r->Ok_0.path@ == path@,
        r is Err ==> r->Err_0 == ErrorCode::PathNotFound || r->Err_0
            == ErrorCode::DiskUsageFailed,
{
    let exists = path_exists(path);
    let total = volume_total(path);
    let free = volume_free(path);
    disk_decision(path, exists, total, free)
}

} // verus!
