//! A concurrent analytical fan-out engine: loads a partitioned columnar
//! dataset into an in-memory table, fans out many independent aggregate
//! queries against it, and collects each query's scalar result into a
//! single line-delimited output stream.
//!
//! This crate holds the verified orchestration core: partition-to-task
//! mapping, query-text construction, the result collector with its
//! line-framing discipline, and the per-pipeline state machine with its
//! error-aggregation contract. The unverified harness around it performs
//! the actual file reading, query-engine calls, and concurrent scheduling,
//! and hands this library plain values.

pub mod outcome;
pub mod pipeline;
pub mod query;
pub mod record;
pub mod stream;
pub mod table;
pub mod text;
