//! Named integer counters kept in a concurrent map, with point reads,
//! increments, decrements and isolated snapshots, and the decisions of the
//! background workers that feed them.

pub mod laws;
pub mod store;
pub mod worker;

pub use store::Metrics;
