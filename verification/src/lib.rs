//! Aggregation engine for daily weather observation records.
//!
//! Readings are grouped by calendar month in a `ReadingStore`; the
//! aggregators derive yearly extremes and monthly averages from it, and the
//! chart module lays one month's readings out as a dual bar chart.

pub mod args;
pub mod calculate;
pub mod chart;
pub mod reading;
pub mod report;
pub mod store;
pub mod text;
pub mod utils;

pub use args::Arguments;
pub use args::validate_year;
pub use utils::parse_date_from;
