//! Commit-history statistics: a set of independent collectors, each fed every
//! commit of a history once and each contributing its part of a report.
//!
//! All counters are `u64` and accumulate with saturating addition: a total that
//! would pass `u64::MAX` stays there.

pub mod calendar;
pub mod text;
pub mod commit;
pub mod tally;
pub mod json;
pub mod viewmodel;
pub mod stats;
pub mod collectors;
pub mod process;
pub mod laws;
