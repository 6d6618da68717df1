//! Verified core of a command-line price lookup tool: fiat-amount
//! lexing, provider registry, conversion assembly, chart-range
//! resolution and historical-series windowing.

pub mod chart;
pub mod cmc;
pub mod coingecko;
pub mod dates;
pub mod decimal;
pub mod engine;
pub mod errors;
pub mod fiat;
pub mod history;
pub mod query;
pub mod registry;
pub mod strutil;
pub mod types;
