//! Report aggregation for load-testing benchmarks: percentile tables, the
//! event-driven aggregation of one run into an archive, and the layout of the
//! archive store.
pub mod builder;
pub mod percentile;
pub mod report;
pub mod run;
pub mod store;
pub mod tags;
