//! Metrics instrumentation core: hierarchical metric names, attribute
//! decoration (prefixing, buffering), rendering to text lines, buffered
//! scopes with explicit flushing and flush-time observers, a metric cache,
//! an aggregation bucket and the decisions of scheduled flushes.
pub mod attributes;
pub mod bucket;
pub mod cache;
pub mod logging;
pub mod name;
pub mod schedule;
pub mod text;
