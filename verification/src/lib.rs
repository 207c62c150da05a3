//! Disk-usage analysis core: a filterable, cancellable directory-walk engine
//! with incremental aggregation, bounded largest-file tracking and snapshot
//! rendering, plus the line-framed remote-control protocol that drives it.

pub mod agg;
pub mod config;
pub mod disk;
pub mod engine;
pub mod filter;
pub mod jsonio;
pub mod options;
pub mod protocol;
pub mod session;
pub mod snapshot;
pub mod text;
pub mod topfiles;
pub mod types;
pub mod walk;
