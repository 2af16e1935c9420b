//! Technical indicators: pure functions of a series of close prices, oldest
//! first.

pub mod macd;
pub mod rsi;

pub use macd::{MacdIndicator, MacdSignal};
pub use rsi::RsiIndicator;
