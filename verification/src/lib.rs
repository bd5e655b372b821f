//! A verified mirror of a paginated time-series history service.
//!
//! The crate covers the core of an incremental-sync, time-bucketing query
//! engine: an interval catalog, a total query normalizer, an append-only
//! raw-sample store, a bucketing/pagination/sort pipeline with summary
//! records, and the decision logic of the watermark-driven sync loop.
//! All time values are epoch seconds; all metric values are unsigned
//! integers in the upstream's base units.

pub mod clock;
pub mod engine;
pub mod error;
pub mod interval;
pub mod model;
pub mod query;
pub mod store;
pub mod sync;
pub mod text;
pub mod wire;
