//! The result data model: files, rendered tree nodes, summaries, scan events
//! and disk-usage snapshots.

use vstd::prelude::*;

verus! {

/// One file, as tracked during a scan and reported in results.
pub struct ScanFile {
    pub path: String,
    pub name: String,
    pub size_bytes: u64,
}

/// One directory of the rendered result tree, with recursive aggregates.
pub struct ScanNode {
    pub path: String,
    pub name: String,
    pub size_bytes: u64,
    pub file_count: u64,
    pub dir_count: u64,
    pub files: Vec<ScanFile>,
    pub children: Vec<ScanNode>,
}

/// The terminal artifact of one scan.
pub struct ScanSummary {
    pub id: Option<String>,
    pub root: ScanNode,
    pub total_bytes: u64,
    pub file_count: u64,
    pub dir_count: u64,
    pub largest_files: Vec<ScanFile>,
    pub duration_ms: u64,
}

/// What a scan emits to its consumer.
pub enum ScanEvent {
    Progress(ScanSummary),
    Complete(ScanSummary),
    Error(String),
    Cancelled(String),
}

impl ScanEvent {
    /// The event name each kind is delivered under.
    pub fn event_name(&self) -> (r: &'static str)
        ensures
            self is Progress ==> r@ == "scan-progress"@,
            self is Complete ==> r@ == "scan-complete"@,
            self is Error ==> r@ == "scan-error"@,
            self is Cancelled ==> r@ == "scan-cancelled"@,
    {
        match self {
            ScanEvent::Progress(..) => "scan-progress",
            ScanEvent::Complete(..) => "scan-complete",
            ScanEvent::Error(..) => "scan-error",
            ScanEvent::Cancelled(..) => "scan-cancelled",
        }
    }
}

/// Total and free byte counts of the volume containing a path.
pub struct DiskUsageSnapshot {
    pub path: String,
    pub total_bytes: u64,
    pub free_bytes: u64,
}

/// An owned copy of a file record, equal to the original.
pub fn clone_file(f: &ScanFile) -> (r: ScanFile)
    ensures
        r == *f,
{
    ScanFile { path: f.path.clone(), name: f.name.clone(), size_bytes: f.size_bytes }
}

/// An owned copy of a list of file records, equal to the original.
pub fn clone_files(l: &Vec<ScanFile>) -> (r: Vec<ScanFile>)
    ensures
        r@ == l@,
{
    let mut r: Vec<ScanFile> = Vec::new();
    let mut i: usize = 0;
    while i < l.len()
        invariant
            i <= l@.len(),
            r@ == l@.take(i as int),
        decreases l@.len() - i,
    {
        r.push(clone_file(&l[i]));
        i = i + 1;
    }
    proof {
        assert(r@ =~= l@);
    }
    r
}

} // verus!
