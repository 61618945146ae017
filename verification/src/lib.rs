//! Sampling and derived-metric engine of a host performance monitor.
//!
//! The host program reads raw operating-system counters once per tick and
//! hands them to the collectors of this library as plain values. The
//! collectors turn them into rates, percentages, rankings and bounded
//! histories. All quantities are integers: percentages are counted in
//! hundredths of a percent, time in nanoseconds, throughput in whole bytes
//! per second.

pub mod app;
pub mod collectors;
pub mod config;
pub mod error;
pub mod text;
pub mod themes;
pub mod ui;
