//! Control plane of an automated spot-trading bot.
//!
//! Market events flow from the [`stream`] of each pair to the strategy
//! [`registry`], to the [`risk`] manager and to the simulated exchange in
//! [`paper`]. The registry turns the closes of finished candles into signals
//! with the [`indicators`]. The risk manager admits or rejects each signal,
//! closes positions at their stop-loss or take-profit, and halts the engine
//! on a drawdown. The [`executor`] hands admitted orders to an exchange, the
//! simulated one or the live one whose requests [`rest`] signs, and the
//! engine's [`lifecycle`] follows the operator's commands.
//!
//! The library decides and computes; it opens no connection and owns no
//! task. Each component is a value with a function from what arrived to what
//! is to be done, and the program around it moves the messages.
//!
//! Every price, quantity and ratio is a fixed-point decimal with eight
//! fractional digits, held as an integer count of units of 0.00000001: see
//! [`decimal`] for the arithmetic and [`notation`] for reading and writing.

pub mod clock;
pub mod config;
pub mod dashboard;
pub mod decimal;
pub mod error;
pub mod ids;
pub mod executor;
pub mod indicators;
pub mod lifecycle;
pub mod log_buffer;
pub mod notation;
pub mod operator;
pub mod paper;
pub mod pieces;
pub mod registry;
pub mod rest;
pub mod risk;
pub mod settings;
pub mod stream;
pub mod strategy;
pub mod types;

pub use config::{ParamValue, StrategyConfig, StrategyFileConfig};
pub use error::Error;
pub use executor::{ExecutorStep, OrderExecutor};
pub use indicators::{MacdIndicator, MacdSignal, RsiIndicator};
pub use lifecycle::{Engine, EngineAction};
pub use log_buffer::LogBuffer;
pub use paper::PaperClient;
pub use strategy::{AnyStrategy, MacdStrategy, RsiStrategy, Strategy};
pub use registry::StrategyRegistry;
pub use rest::{Balance, BinanceClient};
pub use stream::{BinanceStream, Kline, SessionEnd, StreamFrame, StreamStep};
pub use settings::Config;
pub use risk::{RiskConfig, RiskInput, RiskManager, RiskOutput, Verdict, MAX_OPEN_ORDERS};
pub use types::{
    EngineCommand, EngineState, Fill, MarketEvent, MarketInput, Order, OrderSide, Position,
    RejectionReason, RiskEvent, Signal, TradingMode,
};
