//! The strategy registry: the strategies of the configuration and, for each
//! pair, a rolling window of the closes of its finished candles.

use vstd::prelude::*;
use vstd::hash_map::StringHashMap;
use vstd::string::StringExecFns;
use crate::config::{count_param, decimal_param, param_decimal, param_usize, StrategyConfig, StrategyFileConfig};
use crate::decimal::SCALE;
use crate::error::Error;
use crate::strategy::{AnyStrategy, MacdStrategy, RsiStrategy, Strategy};
use crate::types::{EngineState, MarketEvent, MarketInput, Signal};

verus! {

/// How many closes a pair's window holds unless told otherwise.
pub const DEFAULT_MAX_HISTORY: usize = 200;

/// `copy` holds what `cfg` holds.
pub open spec fn same_config(copy: StrategyConfig, cfg: StrategyConfig) -> bool {
    &&& copy.strategy_type == cfg.strategy_type
    &&& copy.name == cfg.name
    &&& copy.pair == cfg.pair
    &&& copy.quantity == cfg.quantity
    &&& copy.params@ == cfg.params@
}

/// The period of the index that `cfg` asks for: fourteen unless it says
/// otherwise.
pub open spec fn rsi_period(cfg: StrategyConfig) -> usize {
    count_param(cfg.params@, "period"@, 14)
}

/// The periods of the crossover indicator that `cfg` asks for: twelve,
/// twenty-six and nine unless it says otherwise.
pub open spec fn macd_periods(cfg: StrategyConfig) -> (usize, usize, usize) {
    (
        count_param(cfg.params@, "fast"@, 12),
        count_param(cfg.params@, "slow"@, 26),
        count_param(cfg.params@, "signal"@, 9),
    )
}

/// Whether `cfg` names a known kind of strategy with periods in range.
pub open spec fn buildable(cfg: StrategyConfig) -> bool {
    if cfg.strategy_type@ == "rsi"@ {
        rsi_period(cfg) >= 2
    } else if cfg.strategy_type@ == "macd"@ {
        macd_periods(cfg).0 < macd_periods(cfg).1
    } else {
        false
    }
}

/// Why `cfg` cannot be built, in words.
pub open spec fn build_error(cfg: StrategyConfig) -> Seq<char> {
    if cfg.strategy_type@ == "rsi"@ {
        "RSI period must be >= 2"@
    } else if cfg.strategy_type@ == "macd"@ {
        "MACD fast period must be less than slow period"@
    } else {
        "unknown type '"@ + cfg.strategy_type@ + "'"@
    }
}

/// `strategy` is what `cfg` asks for: the kind it names, with its
/// parameters or their defaults. The thresholds of the index default to
/// seventy and thirty.
pub open spec fn built_as(strategy: AnyStrategy, cfg: StrategyConfig) -> bool {
    if cfg.strategy_type@ == "rsi"@ {
        &&& strategy matches AnyStrategy::Rsi(s)
        &&& same_config(s.cfg, cfg)
        &&& s.indicator.period == rsi_period(cfg)
        &&& s.indicator.overbought == decimal_param(cfg.params@, "overbought"@, (70 * SCALE) as i64)
        &&& s.indicator.oversold == decimal_param(cfg.params@, "oversold"@, (30 * SCALE) as i64)
    } else {
        &&& strategy matches AnyStrategy::Macd(s)
        &&& same_config(s.cfg, cfg)
        &&& s.indicator.fast == macd_periods(cfg).0
        &&& s.indicator.slow == macd_periods(cfg).1
        &&& s.indicator.signal == macd_periods(cfg).2
    }
}

/// The strategy that `cfg` asks for, or the reason why there is none.
pub fn build_strategy(cfg: &StrategyConfig) -> (r: Result<AnyStrategy, String>)
    ensures
        r is Ok <==> buildable(*cfg),
        r matches Ok(strategy) ==> built_as(strategy, *cfg) && strategy.valid(),
        r matches Err(message) ==> message@ == build_error(*cfg),
{
    if cfg.strategy_type == "rsi".to_owned() {
        let period = param_usize(&cfg.params, "period", 14);
        let overbought = param_decimal(&cfg.params, "overbought", 70 * SCALE);
        let oversold = param_decimal(&cfg.params, "oversold", 30 * SCALE);
        if period < 2 {
            return Err("RSI period must be >= 2".to_owned());
        }
        Ok(AnyStrategy::Rsi(RsiStrategy::new(cfg.clone(), period, overbought, oversold)))
    } else if cfg.strategy_type == "macd".to_owned() {
        let fast = param_usize(&cfg.params, "fast", 12);
        let slow = param_usize(&cfg.params, "slow", 26);
        let signal = param_usize(&cfg.params, "signal", 9);
        if fast >= slow {
            return Err("MACD fast period must be less than slow period".to_owned());
        }
        Ok(AnyStrategy::Macd(MacdStrategy::new(cfg.clone(), fast, slow, signal)))
    } else {
        Err("unknown type '".to_owned().concat(cfg.strategy_type.as_str()).concat("'"))
    }
}

/// The window after one more close: the close is appended, and the oldest
/// close leaves where the window has grown beyond `max_history`.
pub open spec fn window_after(window: Seq<i64>, price: i64, max_history: nat) -> Seq<i64> {
    let grown = window.push(price);
    if grown.len() > max_history {
        grown.drop_first()
    } else {
        grown
    }
}

/// The closes recorded for `pair`, none where the pair is unknown.
pub open spec fn window_of(history: Map<Seq<char>, Vec<i64>>, pair: Seq<char>) -> Seq<i64> {
    if history.contains_key(pair) {
        history[pair]@
    } else {
        Seq::empty()
    }
}

/// The signals of the first `n` strategies on `event`, in their order: each
/// strategy that watches the event's pair is asked, the others are not.
pub open spec fn signals_of(strategies: Seq<AnyStrategy>, n: nat, event: MarketEvent, window: Seq<i64>) -> Seq<Signal>
    decreases n,
{
    if n == 0 {
        Seq::empty()
    } else {
        let before = signals_of(strategies, (n - 1) as nat, event, window);
        let strategy = strategies[n - 1];
        if strategy.watched() == event.pair@ {
            match strategy.decision(event, window) {
                Some(signal) => before.push(signal),
                None => before,
            }
        } else {
            before
        }
    }
}

/// The signals that the registry hands on for `event`: those of its
/// strategies while the engine runs, none in any other state.
pub open spec fn gated_signals(state: EngineState, strategies: Seq<AnyStrategy>, event: MarketEvent, window: Seq<i64>) -> Seq<Signal> {
    if state == EngineState::Running {
        signals_of(strategies, strategies.len(), event, window)
    } else {
        Seq::empty()
    }
}

/// The message of the error for the entry `cfg` that cannot be built.
pub open spec fn unknown_strategy(cfg: StrategyConfig) -> Seq<char> {
    "Unknown strategy type '"@ + cfg.strategy_type@ + "': "@ + build_error(cfg)
}

/// A copy of a window.
fn copy_of(window: &Vec<i64>) -> (copy: Vec<i64>)
    ensures
        copy@ == window@,
{
    let mut copy: Vec<i64> = Vec::new();
    let mut i: usize = 0;
    while i < window.len()
        invariant
            i <= window.len(),
            copy@ == window@.take(i as int),
        decreases window.len() - i,
    {
        copy.push(window[i]);
        assert(window@.take(i + 1) =~= window@.take(i as int).push(window@[i as int]));
        i += 1;
    }
    assert(window@.take(window.len() as int) =~= window@);
    copy
}

/// The strategies and the price history they read.
pub struct StrategyRegistry {
    pub strategies: Vec<AnyStrategy>,
    /// For each pair, the closes of its latest finished candles, oldest
    /// first.
    pub price_history: StringHashMap<Vec<i64>>,
    pub max_history: usize,
}

impl StrategyRegistry {
    /// Every strategy has its parameters in range.
    pub open spec fn valid(&self) -> bool {
        forall|i: int| 0 <= i < self.strategies@.len() ==> (#[trigger] self.strategies@[i]).valid()
    }

    /// Whether every strategy has its parameters in range.
    pub fn is_valid(&self) -> (ok: bool)
        ensures
            ok == self.valid(),
    {
        let mut i: usize = 0;
        while i < self.strategies.len()
            invariant
                i <= self.strategies@.len(),
                forall|j: int| 0 <= j < i ==> (#[trigger] self.strategies@[j]).valid(),
            decreases self.strategies.len() - i,
        {
            if !self.strategies[i].is_valid() {
                return false;
            }
            i += 1;
        }
        true
    }

    /// The registry for a strategy file: one strategy for each entry, in
    /// order, and no history. Fails on the first entry that names an unknown
    /// kind or has a period out of range.
    pub fn from_config(file_cfg: &StrategyFileConfig) -> (r: Result<StrategyRegistry, Error>)
        ensures
            r is Ok <==> forall|i: int|
                0 <= i < file_cfg.strategies@.len() ==> buildable(#[trigger] file_cfg.strategies@[i]),
            r matches Ok(registry) ==> {
                &&& registry.valid()
                &&& registry.max_history == DEFAULT_MAX_HISTORY
                &&& registry.price_history@ == Map::<Seq<char>, Vec<i64>>::empty()
                &&& registry.strategies@.len() == file_cfg.strategies@.len()
                &&& forall|i: int|
                    0 <= i < file_cfg.strategies@.len() ==> built_as(
                        #[trigger] registry.strategies@[i],
                        file_cfg.strategies@[i],
                    )
            },
            r matches Err(error) ==> exists|i: int|
                {
                    &&& 0 <= i < file_cfg.strategies@.len()
                    &&& !buildable(#[trigger] file_cfg.strategies@[i])
                    &&& forall|j: int| 0 <= j < i ==> buildable(#[trigger] file_cfg.strategies@[j])
                    &&& error matches Error::Config(message)
                    &&& message@ == unknown_strategy(file_cfg.strategies@[i])
                },
    {
        let mut strategies: Vec<AnyStrategy> = Vec::new();
        let mut i: usize = 0;
        while i < file_cfg.strategies.len()
            invariant
                i <= file_cfg.strategies@.len(),
                strategies@.len() == i,
                forall|j: int| 0 <= j < i ==> buildable(#[trigger] file_cfg.strategies@[j]),
                forall|j: int| 0 <= j < i ==> (#[trigger] strategies@[j]).valid(),
                forall|j: int| 0 <= j < i ==> built_as(#[trigger] strategies@[j], file_cfg.strategies@[j]),
            decreases file_cfg.strategies.len() - i,
        {
            let cfg = &file_cfg.strategies[i];
            match build_strategy(cfg) {
                Ok(strategy) => {
                    strategies.push(strategy);
                },
                Err(reason) => {
                    let message = "Unknown strategy type '".to_owned().concat(
                        cfg.strategy_type.as_str(),
                    ).concat("': ").concat(reason.as_str());
                    assert(!buildable(file_cfg.strategies@[i as int]));
                    return Err(Error::Config(message));
                },
            }
            i += 1;
        }
        Ok(
            StrategyRegistry {
                strategies,
                price_history: StringHashMap::new(),
                max_history: DEFAULT_MAX_HISTORY,
            },
        )
    }

    /// One market event. An event that finishes a candle adds its close to
    /// the window of its pair. Then every strategy that watches the pair is
    /// asked, in order, with that window, and the signals are handed back in
    /// that order.
    pub fn process(&mut self, event: &MarketEvent) -> (signals: Vec<Signal>)
        requires
            old(self).valid(),
        ensures
            final(self).valid(),
            final(self).strategies == old(self).strategies,
            final(self).max_history == old(self).max_history,
            !event.is_candle_closed ==> final(self).price_history@ == old(self).price_history@,
            event.is_candle_closed ==> {
                &&& final(self).price_history@.dom() == old(self).price_history@.dom().insert(event.pair@)
                &&& forall|pair: Seq<char>|
                    pair != event.pair@ && old(self).price_history@.contains_key(pair)
                        ==> final(self).price_history@[pair] == old(self).price_history@[pair]
                &&& window_of(final(self).price_history@, event.pair@) == window_after(
                    window_of(old(self).price_history@, event.pair@),
                    event.price,
                    old(self).max_history as nat,
                )
            },
            signals@ == signals_of(
                old(self).strategies@,
                old(self).strategies@.len(),
                *event,
                window_of(final(self).price_history@, event.pair@),
            ),
    {
        if event.is_candle_closed {
            let mut window: Vec<i64> = match self.price_history.get(event.pair.as_str()) {
                Some(known) => copy_of(known),
                None => Vec::new(),
            };
            window.push(event.price);
            if window.len() > self.max_history {
                let _ = window.remove(0);
                assert(window@ =~= window_after(
                    window_of(old(self).price_history@, event.pair@),
                    event.price,
                    self.max_history as nat,
                ));
            }
            self.price_history.insert(event.pair.clone(), window);
        }
        let empty: Vec<i64> = Vec::new();
        let window: &Vec<i64> = match self.price_history.get(event.pair.as_str()) {
            Some(known) => known,
            None => &empty,
        };
        let mut signals: Vec<Signal> = Vec::new();
        let mut i: usize = 0;
        while i < self.strategies.len()
            invariant
                i <= self.strategies@.len(),
                self.valid(),
                signals@ == signals_of(self.strategies@, i as nat, *event, window@),
            decreases self.strategies.len() - i,
        {
            let strategy = &self.strategies[i];
            assert(strategy.valid());
            if strategy.pair().to_owned() == event.pair {
                match strategy.evaluate(event, window.as_slice()) {
                    Some(signal) => {
                        signals.push(signal);
                    },
                    None => {},
                }
            }
            i += 1;
        }
        signals
    }

    /// One market event under the engine state: unless the engine is
    /// running the event is dropped, with no signal and no change to the
    /// history; where it runs the event is processed.
    pub fn on_event(&mut self, state: EngineState, event: &MarketEvent) -> (signals: Vec<Signal>)
        requires
            old(self).valid(),
        ensures
            final(self).valid(),
            final(self).strategies == old(self).strategies,
            final(self).max_history == old(self).max_history,
            state != EngineState::Running ==> final(self).price_history@ == old(self).price_history@,
            signals@ == gated_signals(
                state,
                old(self).strategies@,
                *event,
                window_of(final(self).price_history@, event.pair@),
            ),
            state == EngineState::Running && event.is_candle_closed ==> window_of(
                final(self).price_history@,
                event.pair@,
            ) == window_after(
                window_of(old(self).price_history@, event.pair@),
                event.price,
                old(self).max_history as nat,
            ),
            state == EngineState::Running && !event.is_candle_closed
                ==> final(self).price_history@ == old(self).price_history@,
    {
        if state != EngineState::Running {
            return Vec::new();
        }
        self.process(event)
    }

    /// One turn of the registry's task: the signals to hand on, and whether
    /// the task goes on. An event is taken under the engine state; a notice
    /// of dropped events changes nothing; the end of the fan-out ends the
    /// task.
    pub fn step(&mut self, state: EngineState, input: &MarketInput) -> (turn: (Vec<Signal>, bool))
        requires
            old(self).valid(),
        ensures
            final(self).valid(),
            final(self).strategies == old(self).strategies,
            final(self).max_history == old(self).max_history,
            turn.1 == !(input is Closed),
            match *input {
                MarketInput::Event(event) => {
                    &&& turn.0@ == gated_signals(
                        state,
                        old(self).strategies@,
                        event,
                        window_of(final(self).price_history@, event.pair@),
                    )
                    &&& state != EngineState::Running ==> final(self).price_history@ == old(
                        self,
                    ).price_history@
                    &&& state == EngineState::Running && event.is_candle_closed ==> window_of(
                        final(self).price_history@,
                        event.pair@,
                    ) == window_after(
                        window_of(old(self).price_history@, event.pair@),
                        event.price,
                        old(self).max_history as nat,
                    )
                },
                _ => turn.0@.len() == 0 && final(self).price_history@ == old(self).price_history@,
            },
    {
        match input {
            MarketInput::Event(event) => (self.on_event(state, event), true),
            MarketInput::Lagged(_) => (Vec::new(), true),
            MarketInput::Closed => (Vec::new(), false),
        }
    }
}


/// A window never holds more closes than `max_history`, whatever closes
/// arrive.
pub proof fn lemma_window_stays_bounded(window: Seq<i64>, price: i64, max_history: nat)
    requires
        window.len() <= max_history,
    ensures
        window_after(window, price, max_history).len() <= max_history,
        max_history >= 1 ==> window_after(window, price, max_history).last() == price,
{
}

/// No signal leads to an order unless the engine runs: while it is stopped,
/// paused or halted the registry hands on no signal, and a signal that
/// reaches the risk manager of a halted engine all the same is rejected.
pub proof fn lemma_no_order_unless_running(
    state: EngineState,
    strategies: Seq<AnyStrategy>,
    event: MarketEvent,
    window: Seq<i64>,
    config: crate::risk::RiskConfig,
    open_positions: nat,
    price: i64,
    quantity: i64,
)
    requires
        state != EngineState::Running,
    ensures
        gated_signals(state, strategies, event, window).len() == 0,
        state == EngineState::Halted ==> crate::risk::rejection(
            config,
            state,
            open_positions,
            price,
            quantity,
        ) is Some,
{
}

} // verus!
