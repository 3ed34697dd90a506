//! A bounded-concurrency engine that processes JSON-like values in four ways:
//! a data-parallel map, chunked batches, a map-reduce aggregation and a staged
//! pipeline.

pub mod value;
pub mod batch;
pub mod binary64;
pub mod envelope;
pub mod error;
pub mod map_reduce;
pub mod options;
pub mod parallel;
pub mod pipeline;
pub mod processor;
pub mod text;
