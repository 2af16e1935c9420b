//! Strategies: an indicator bound to a pair and an order quantity.
//!
//! A strategy is asked on every market event of its pair, with the closes of
//! the pair's finished candles so far, the event's own close included. It
//! answers only on events that finish a candle.

use vstd::prelude::*;
use crate::config::StrategyConfig;
use crate::indicators::macd::{macd_of, MacdIndicator, MacdSignal};
use crate::indicators::rsi::{rsi_of, RsiIndicator};
use crate::types::{MarketEvent, Signal};

verus! {

/// What every strategy offers.
pub trait Strategy {
    /// The strategy's parameters are in their ranges.
    spec fn valid(&self) -> bool;

    /// The pair the strategy watches.
    spec fn watched(&self) -> Seq<char>;

    /// The signal the strategy gives on `event`, given the closes so far.
    spec fn decision(&self, event: MarketEvent, history: Seq<i64>) -> Option<Signal>;

    /// The strategy's name.
    spec fn label(&self) -> Seq<char>;

    /// Name of this strategy, for the log.
    fn name(&self) -> (n: &str)
        ensures
            n@ == self.label(),
    ;

    /// The pair the strategy watches.
    fn pair(&self) -> (p: &str)
        ensures
            p@ == self.watched(),
    ;

    /// The signal on `event`, if any, given the closes of the pair's
    /// finished candles, oldest first.
    fn evaluate(&self, event: &MarketEvent, history: &[i64]) -> (s: Option<Signal>)
        requires
            self.valid(),
        ensures
            s == self.decision(*event, history@),
    ;
}

/// Buys where the index is at or below the oversold threshold, sells where
/// it is at or above the overbought threshold.
pub struct RsiStrategy {
    pub cfg: StrategyConfig,
    pub indicator: RsiIndicator,
}

/// Buys on a bullish crossover, sells on a bearish one.
pub struct MacdStrategy {
    pub cfg: StrategyConfig,
    pub indicator: MacdIndicator,
}

/// The signal for an index `value` against the two thresholds. The oversold
/// threshold is tested first.
pub open spec fn threshold_signal(cfg: StrategyConfig, overbought: i64, oversold: i64, value: int) -> Option<Signal> {
    if value <= oversold {
        Some(Signal::Buy { pair: cfg.pair, quantity: cfg.quantity })
    } else if value >= overbought {
        Some(Signal::Sell { pair: cfg.pair, quantity: cfg.quantity })
    } else {
        None
    }
}

/// The signal for a crossover.
pub open spec fn crossover_signal(cfg: StrategyConfig, crossover: MacdSignal) -> Option<Signal> {
    match crossover {
        MacdSignal::Bullish => Some(Signal::Buy { pair: cfg.pair, quantity: cfg.quantity }),
        MacdSignal::Bearish => Some(Signal::Sell { pair: cfg.pair, quantity: cfg.quantity }),
        MacdSignal::Neutral => None,
    }
}

impl RsiStrategy {
    /// A strategy for `cfg` with an indicator over `period` changes.
    pub fn new(cfg: StrategyConfig, period: usize, overbought: i64, oversold: i64) -> (s: Self)
        requires
            period >= 2,
        ensures
            s.cfg == cfg,
            s.indicator.period == period,
            s.indicator.overbought == overbought,
            s.indicator.oversold == oversold,
            s.valid(),
    {
        RsiStrategy { cfg, indicator: RsiIndicator::new(period, overbought, oversold) }
    }
}

impl Strategy for RsiStrategy {
    open spec fn valid(&self) -> bool {
        self.indicator.period >= 2
    }

    open spec fn watched(&self) -> Seq<char> {
        self.cfg.pair@
    }

    open spec fn label(&self) -> Seq<char> {
        self.cfg.name@
    }

    open spec fn decision(&self, event: MarketEvent, history: Seq<i64>) -> Option<Signal> {
        if !event.is_candle_closed {
            None
        } else {
            match rsi_of(history, self.indicator.period as nat) {
                Some(value) => threshold_signal(
                    self.cfg,
                    self.indicator.overbought,
                    self.indicator.oversold,
                    value,
                ),
                None => None,
            }
        }
    }

    fn name(&self) -> (n: &str) {
        self.cfg.name.as_str()
    }

    fn pair(&self) -> (p: &str) {
        self.cfg.pair.as_str()
    }

    fn evaluate(&self, event: &MarketEvent, history: &[i64]) -> (s: Option<Signal>) {
        if !event.is_candle_closed {
            return None;
        }
        match self.indicator.compute(history) {
            Some(value) => {
                if value <= self.indicator.oversold {
                    Some(Signal::Buy { pair: self.cfg.pair.clone(), quantity: self.cfg.quantity })
                } else if value >= self.indicator.overbought {
                    Some(Signal::Sell { pair: self.cfg.pair.clone(), quantity: self.cfg.quantity })
                } else {
                    None
                }
            },
            None => None,
        }
    }
}

impl MacdStrategy {
    /// A strategy for `cfg` with an indicator over the three periods.
    pub fn new(cfg: StrategyConfig, fast: usize, slow: usize, signal: usize) -> (s: Self)
        requires
            fast < slow,
        ensures
            s.cfg == cfg,
            s.indicator.fast == fast,
            s.indicator.slow == slow,
            s.indicator.signal == signal,
            s.valid(),
    {
        MacdStrategy { cfg, indicator: MacdIndicator::new(fast, slow, signal) }
    }
}

impl Strategy for MacdStrategy {
    open spec fn valid(&self) -> bool {
        self.indicator.fast < self.indicator.slow
    }

    open spec fn watched(&self) -> Seq<char> {
        self.cfg.pair@
    }

    open spec fn label(&self) -> Seq<char> {
        self.cfg.name@
    }

    open spec fn decision(&self, event: MarketEvent, history: Seq<i64>) -> Option<Signal> {
        if !event.is_candle_closed {
            None
        } else {
            match macd_of(
                history,
                self.indicator.fast as nat,
                self.indicator.slow as nat,
                self.indicator.signal as nat,
            ) {
                Some(crossover) => crossover_signal(self.cfg, crossover),
                None => None,
            }
        }
    }

    fn name(&self) -> (n: &str) {
        self.cfg.name.as_str()
    }

    fn pair(&self) -> (p: &str) {
        self.cfg.pair.as_str()
    }

    fn evaluate(&self, event: &MarketEvent, history: &[i64]) -> (s: Option<Signal>) {
        if !event.is_candle_closed {
            return None;
        }
        match self.indicator.compute(history) {
            Some(MacdSignal::Bullish) => Some(
                Signal::Buy { pair: self.cfg.pair.clone(), quantity: self.cfg.quantity },
            ),
            Some(MacdSignal::Bearish) => Some(
                Signal::Sell { pair: self.cfg.pair.clone(), quantity: self.cfg.quantity },
            ),
            Some(MacdSignal::Neutral) => None,
            None => None,
        }
    }
}

/// A strategy of one of the known kinds.
pub enum AnyStrategy {
    Rsi(RsiStrategy),
    Macd(MacdStrategy),
}

impl AnyStrategy {
    /// Whether the strategy's parameters are in their ranges.
    pub fn is_valid(&self) -> (ok: bool)
        ensures
            ok == self.valid(),
    {
        match self {
            AnyStrategy::Rsi(s) => s.indicator.period >= 2,
            AnyStrategy::Macd(s) => s.indicator.fast < s.indicator.slow,
        }
    }
}

impl Strategy for AnyStrategy {
    open spec fn valid(&self) -> bool {
        match self {
            AnyStrategy::Rsi(s) => s.valid(),
            AnyStrategy::Macd(s) => s.valid(),
        }
    }

    open spec fn watched(&self) -> Seq<char> {
        match self {
            AnyStrategy::Rsi(s) => s.watched(),
            AnyStrategy::Macd(s) => s.watched(),
        }
    }

    open spec fn label(&self) -> Seq<char> {
        match self {
            AnyStrategy::Rsi(s) => s.label(),
            AnyStrategy::Macd(s) => s.label(),
        }
    }

    open spec fn decision(&self, event: MarketEvent, history: Seq<i64>) -> Option<Signal> {
        match self {
            AnyStrategy::Rsi(s) => s.decision(event, history),
            AnyStrategy::Macd(s) => s.decision(event, history),
        }
    }

    fn name(&self) -> (n: &str) {
        match self {
            AnyStrategy::Rsi(s) => s.name(),
            AnyStrategy::Macd(s) => s.name(),
        }
    }

    fn pair(&self) -> (p: &str) {
        match self {
            AnyStrategy::Rsi(s) => s.pair(),
            AnyStrategy::Macd(s) => s.pair(),
        }
    }

    fn evaluate(&self, event: &MarketEvent, history: &[i64]) -> (s: Option<Signal>) {
        match self {
            AnyStrategy::Rsi(s) => s.evaluate(event, history),
            AnyStrategy::Macd(s) => s.evaluate(event, history),
        }
    }
}

} // verus!
