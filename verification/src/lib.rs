//! Library core of a crypto momentum tracker: parsing of candle intervals and
//! command line options, rolling windows of closing prices, streak detection,
//! edge-triggered alerts, symbol selection and alert message composition.

pub mod decimal;
pub mod interval;
pub mod window;
pub mod streak;
pub mod alerts;
pub mod text;
pub mod symbols;
pub mod stream;
pub mod message;
pub mod config;
