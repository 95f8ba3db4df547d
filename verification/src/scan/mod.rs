//! Scans along a sequence.

pub mod chunk_meaning;
pub mod chunk_scan;
pub mod delta_rule;
pub mod parallel_scan;
pub mod room_laws;
