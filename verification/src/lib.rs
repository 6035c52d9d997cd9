//! Aggregation core of a dependency-graph safety report.
//!
//! Three inputs are reconciled into one report: the source files that a build
//! configuration compiles, the files in which the finder saw unsafe code, and
//! the metrics that the dependency graph holds for each package.
pub mod config;
pub mod dispatch;
pub mod graph;
pub mod json;
pub mod log;
pub mod metrics;
pub mod report;
pub mod scan;
