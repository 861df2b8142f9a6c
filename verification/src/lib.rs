//! Descriptive statistics over historical closing-price series.
//!
//! Prices are held exactly: a series stores integer numerators over a fixed
//! positive scale, so that element `i` denotes the rational number
//! `prices[i] / scale`. Every statistic (maximum, minimum, price delta,
//! simple moving average) is an exact rational computation with a proved
//! contract; rendering and data retrieval live outside this crate.

pub mod analytics;
pub mod frac;
pub mod quotes;
pub mod report;
pub mod series;
