//! Retained-metrics engine of a solar monitoring agent: timestamped samples
//! are kept per metric, rolled up into hourly, daily and weekly statistics,
//! pruned by age and summarised on request.

pub mod bucket;
pub mod envoy_api;
pub mod instant;
pub mod state;
pub mod statistics;
pub mod tasks;
pub mod time_map;
pub mod time_series;
