//! Bounded-concurrency ingestion of air-quality readings.
//!
//! The library holds the verified core of a batch pipeline that polls one
//! upstream measurement service per monitoring station, normalizes the
//! partially missing readings (exact decimal values, timestamps shifted from
//! KST to UTC and truncated to the hour), and upserts one row per station.
//! The asynchronous plumbing (HTTP, storage, the task fan-out) lives outside;
//! every decision the pipeline takes is a function in here, with a contract.

pub mod decimal;
pub mod laws;
pub mod limiter;
pub mod normalize;
pub mod pipeline;
pub mod store;
pub mod payload;
pub mod time;
