//! Verified core of a log-compression utility.
//!
//! The library decides which directory entries are rotated log files worth
//! compressing, derives the timestamped archive name for each, drives the
//! per-file pipeline (probe for writers, read in chunks, build the archive,
//! delete the source) as a state machine, and aggregates per-file outcomes.
//! The surrounding binary performs the filesystem work and feeds the results
//! back as events.

pub mod classify;
pub mod stamp;
pub mod zipc;
pub mod archiver;
pub mod report;
