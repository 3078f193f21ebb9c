//! Per-ticker quote aggregation: statistics over price series, a running
//! per-ticker summary, and the fan-out/reduce assembly of per-ticker results.
//!
//! Prices are fixed-point integers in hundredths of the display unit (so
//! `12345` stands for `123.45`). Derived values that divide (averages, the
//! percentage difference) truncate toward zero at that resolution.

pub mod arith;
pub mod data_processing;
pub mod dates;
pub mod granularity;
pub mod orchestrator;
pub mod quote;
pub mod report;
pub mod symbol_map;
pub mod text;
pub mod ticker_data;
pub mod summary_laws;
pub mod ticker_summary;
