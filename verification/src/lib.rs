//! A Prometheus exporter for FlexLM license servers.
//!
//! `lmutil lmstat -a` is run for every configured license server, its output is
//! read, and what it says is exposed as metrics.
//!
//! - [`lmutil`]: what a license server reports, and how `lmutil` is run
//! - [`lmstat`]: reading the output of `lmutil lmstat -a`
//! - [`collect`]: collecting one server, with retries
//! - [`collector`]: what is kept of the collections of all servers
//! - [`metrics`]: the metrics that are exposed
//! - [`report`]: the report of a single collection
//! - [`config`]: the configuration
//! - [`text`], [`patterns`]: text helpers and line layouts
//! - [`outside`], [`families`]: what is called outside this crate, and what is
//!   believed of it
//! - [`hashing`]: the hash by which families and samples are found
//! - [`text_laws`], [`line_laws`], [`lmstat_laws`], [`lmutil_laws`],
//!   [`collect_laws`], [`collector_laws`], [`report_laws`]: what holds of every
//!   text, line, output, run, collection, update and report

pub mod collect;
pub mod collect_laws;
pub mod collector;
pub mod collector_laws;
pub mod config;
pub mod families;
pub mod hashing;
pub mod line_laws;
pub mod lmstat;
pub mod lmstat_laws;
pub mod lmutil;
pub mod lmutil_laws;
pub mod metrics;
pub mod outside;
pub mod patterns;
pub mod report;
pub mod report_laws;
pub mod text;
pub mod text_laws;

pub use collector::LicenseCollector;
pub use config::Config;
pub use lmstat::parse_lmstat_output;
pub use lmutil::{FeatureUsage, ServerStatus, UserUsage};
pub use metrics::Metrics;
