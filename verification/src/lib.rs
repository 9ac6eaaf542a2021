//! Core of a backup-exclusion scanner for developer projects.
//!
//! The crate walks a set of root directories, recognizes project types by
//! marker files (globs from a configuration), and decides which
//! subdirectories to exclude from the system backup service.  Everything
//! that can be stated and checked — the shared traversal state, the
//! per-directory classification, the run cache that deduplicates external
//! calls, and the termination latch — lives here.  Reading directories,
//! spawning worker threads and talking to the external backup tool are left
//! to the surrounding binary, which drives the state machine defined in
//! [`explorer`].

pub mod config;
pub mod explorer;
pub mod laws;
pub mod oracle;
pub mod paths;
pub mod pattern;
