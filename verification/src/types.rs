//! The values that flow between the components.

use vstd::prelude::*;
use crate::ids::{fresh_id, ID_LEN};
use crate::stream::{lowercase, lowercase_of};

verus! {

/// Side of a trade.
#[derive(Debug, Clone, Copy, PartialEq, Eq, Structural)]
pub enum OrderSide {
    Buy,
    Sell,
}

impl OrderSide {
    /// The side that closes a position opened on `self`.
    pub open spec fn spec_opposite(self) -> OrderSide {
        match self {
            OrderSide::Buy => OrderSide::Sell,
            OrderSide::Sell => OrderSide::Buy,
        }
    }

    /// The side that closes a position opened on `self`.
    #[verifier::when_used_as_spec(spec_opposite)]
    pub fn opposite(self) -> (r: OrderSide)
        ensures
            r == self.spec_opposite(),
    {
        match self {
            OrderSide::Buy => OrderSide::Sell,
            OrderSide::Sell => OrderSide::Buy,
        }
    }

    /// The side as the exchange spells it.
    pub open spec fn text(self) -> Seq<char> {
        match self {
            OrderSide::Buy => "BUY"@,
            OrderSide::Sell => "SELL"@,
        }
    }

    /// The side as the exchange spells it.
    pub fn to_string(&self) -> (s: String)
        ensures
            s@ == self.text(),
    {
        match self {
            OrderSide::Buy => "BUY".to_owned(),
            OrderSide::Sell => "SELL".to_owned(),
        }
    }
}

/// Whether orders go to the real exchange or to the simulation.
#[derive(Debug, Clone, Copy, PartialEq, Eq, Structural)]
pub enum TradingMode {
    Live,
    Paper,
}

impl TradingMode {
    /// The mode in lower case.
    pub open spec fn text(self) -> Seq<char> {
        match self {
            TradingMode::Live => "live"@,
            TradingMode::Paper => "paper"@,
        }
    }

    /// The mode in lower case.
    pub fn to_string(&self) -> (s: String)
        ensures
            s@ == self.text(),
    {
        match self {
            TradingMode::Live => "live".to_owned(),
            TradingMode::Paper => "paper".to_owned(),
        }
    }

    /// The mode that `text` names, in any mix of upper and lower case.
    pub open spec fn named_by(text: Seq<char>) -> Option<TradingMode> {
        if lowercase_of(text) == "paper"@ {
            Some(TradingMode::Paper)
        } else if lowercase_of(text) == "live"@ {
            Some(TradingMode::Live)
        } else {
            None
        }
    }

    /// The mode that `text` names, if it names one.
    pub fn parse(text: &str) -> (mode: Option<TradingMode>)
        ensures
            mode == TradingMode::named_by(text@),
    {
        let lower = lowercase(text);
        if lower == "paper".to_owned() {
            Some(TradingMode::Paper)
        } else if lower == "live".to_owned() {
            Some(TradingMode::Live)
        } else {
            None
        }
    }
}

/// Why the risk manager turned a signal down.
#[derive(Debug)]
pub enum RejectionReason {
    ExposureLimitExceeded,
    StopLossProximity,
    HardCeilingReached,
    DrawdownHalt,
    Other(String),
}

impl RejectionReason {
    /// The reason in words.
    pub open spec fn text(self) -> Seq<char> {
        match self {
            RejectionReason::ExposureLimitExceeded => "exposure limit exceeded"@,
            RejectionReason::StopLossProximity => "stop-loss proximity"@,
            RejectionReason::HardCeilingReached => "hard order ceiling reached"@,
            RejectionReason::DrawdownHalt => "max drawdown halt active"@,
            RejectionReason::Other(s) => s@,
        }
    }

    /// The reason in words.
    pub fn to_string(&self) -> (s: String)
        ensures
            s@ == self.text(),
    {
        match self {
            RejectionReason::ExposureLimitExceeded => "exposure limit exceeded".to_owned(),
            RejectionReason::StopLossProximity => "stop-loss proximity".to_owned(),
            RejectionReason::HardCeilingReached => "hard order ceiling reached".to_owned(),
            RejectionReason::DrawdownHalt => "max drawdown halt active".to_owned(),
            RejectionReason::Other(s) => s.clone(),
        }
    }
}

impl Clone for RejectionReason {
    fn clone(&self) -> (r: Self)
        ensures
            r == *self,
    {
        match self {
            RejectionReason::ExposureLimitExceeded => RejectionReason::ExposureLimitExceeded,
            RejectionReason::StopLossProximity => RejectionReason::StopLossProximity,
            RejectionReason::HardCeilingReached => RejectionReason::HardCeilingReached,
            RejectionReason::DrawdownHalt => RejectionReason::DrawdownHalt,
            RejectionReason::Other(s) => RejectionReason::Other(s.clone()),
        }
    }
}

/// Lifecycle state of the engine.
#[derive(Debug, Clone, Copy, PartialEq, Eq, Structural)]
pub enum EngineState {
    Stopped,
    Running,
    Paused,
    Halted,
}

impl EngineState {
    /// The state in lower case.
    pub open spec fn text(self) -> Seq<char> {
        match self {
            EngineState::Stopped => "stopped"@,
            EngineState::Running => "running"@,
            EngineState::Paused => "paused"@,
            EngineState::Halted => "halted"@,
        }
    }

    /// The state in lower case.
    pub fn to_string(&self) -> (s: String)
        ensures
            s@ == self.text(),
    {
        match self {
            EngineState::Stopped => "stopped".to_owned(),
            EngineState::Running => "running".to_owned(),
            EngineState::Paused => "paused".to_owned(),
            EngineState::Halted => "halted".to_owned(),
        }
    }
}

impl Default for EngineState {
    fn default() -> (s: Self)
        ensures
            s == EngineState::Stopped,
    {
        EngineState::Stopped
    }
}

/// Control input to the engine.
#[derive(Debug, Clone, Copy, PartialEq, Eq, Structural)]
pub enum EngineCommand {
    Start,
    Stop,
    Pause,
    Resume,
    ResetDrawdown,
}

/// One candle update for one pair. Times are milliseconds since the epoch.
#[derive(Debug)]
pub struct MarketEvent {
    pub pair: String,
    /// Latest close price of the current candle.
    pub price: i64,
    pub open: i64,
    pub high: i64,
    pub low: i64,
    pub volume: i64,
    /// True once the candle is final. Indicators read only such events.
    pub is_candle_closed: bool,
    pub timestamp: i64,
}

impl Clone for MarketEvent {
    fn clone(&self) -> (r: Self)
        ensures
            r == *self,
    {
        MarketEvent {
            pair: self.pair.clone(),
            price: self.price,
            open: self.open,
            high: self.high,
            low: self.low,
            volume: self.volume,
            is_candle_closed: self.is_candle_closed,
            timestamp: self.timestamp,
        }
    }
}

/// An intent to trade.
#[derive(Debug)]
pub struct Order {
    pub id: String,
    pub pair: String,
    pub side: OrderSide,
    pub quantity: i64,
    /// `None` for a market order, the limit price otherwise.
    pub price: Option<i64>,
}

impl Order {
    /// A market order for `quantity` of `pair` on `side`.
    pub open spec fn is_market(self, pair: Seq<char>, side: OrderSide, quantity: i64) -> bool {
        &&& self.pair@ == pair
        &&& self.side == side
        &&& self.quantity == quantity
        &&& self.price is None
    }

    /// The market order for `quantity` of `pair` on `side` under the given
    /// identifier.
    pub fn with_id(id: String, pair: &str, side: OrderSide, quantity: i64) -> (o: Order)
        ensures
            o.id == id,
            o.is_market(pair@, side, quantity),
    {
        Order { id, pair: pair.to_owned(), side, quantity, price: None }
    }

    /// A market order for `quantity` of `pair` on `side` under a fresh
    /// identifier.
    pub fn market(pair: &str, side: OrderSide, quantity: i64) -> (o: Order)
        ensures
            o.is_market(pair@, side, quantity),
            o.id@.len() == ID_LEN,
    {
        Order::with_id(fresh_id(), pair, side, quantity)
    }
}

impl Clone for Order {
    fn clone(&self) -> (r: Self)
        ensures
            r == *self,
    {
        Order {
            id: self.id.clone(),
            pair: self.pair.clone(),
            side: self.side,
            quantity: self.quantity,
            price: self.price,
        }
    }
}

/// The executed outcome of an order.
#[derive(Debug)]
pub struct Fill {
    pub order_id: String,
    pub pair: String,
    pub side: OrderSide,
    pub fill_price: i64,
    pub quantity: i64,
    pub timestamp: i64,
}

impl Clone for Fill {
    fn clone(&self) -> (r: Self)
        ensures
            r == *self,
    {
        Fill {
            order_id: self.order_id.clone(),
            pair: self.pair.clone(),
            side: self.side,
            fill_price: self.fill_price,
            quantity: self.quantity,
            timestamp: self.timestamp,
        }
    }
}

/// A strategy's recommendation.
#[derive(Debug)]
pub enum Signal {
    Buy { pair: String, quantity: i64 },
    Sell { pair: String, quantity: i64 },
}

impl Signal {
    pub open spec fn spec_pair(&self) -> Seq<char> {
        match *self {
            Signal::Buy { pair, .. } => pair@,
            Signal::Sell { pair, .. } => pair@,
        }
    }

    pub open spec fn spec_quantity(&self) -> i64 {
        match *self {
            Signal::Buy { quantity, .. } => quantity,
            Signal::Sell { quantity, .. } => quantity,
        }
    }

    pub open spec fn spec_side(&self) -> OrderSide {
        match *self {
            Signal::Buy { .. } => OrderSide::Buy,
            Signal::Sell { .. } => OrderSide::Sell,
        }
    }

    /// The pair the signal is for.
    pub fn pair(&self) -> (p: &str)
        ensures
            p@ == self.spec_pair(),
    {
        match self {
            Signal::Buy { pair, .. } => pair.as_str(),
            Signal::Sell { pair, .. } => pair.as_str(),
        }
    }

    /// The quantity to trade.
    #[verifier::when_used_as_spec(spec_quantity)]
    pub fn quantity(&self) -> (q: i64)
        ensures
            q == self.spec_quantity(),
    {
        match self {
            Signal::Buy { quantity, .. } => *quantity,
            Signal::Sell { quantity, .. } => *quantity,
        }
    }

    /// The side to trade on.
    #[verifier::when_used_as_spec(spec_side)]
    pub fn side(&self) -> (s: OrderSide)
        ensures
            s == self.spec_side(),
    {
        match self {
            Signal::Buy { .. } => OrderSide::Buy,
            Signal::Sell { .. } => OrderSide::Sell,
        }
    }
}

impl Clone for Signal {
    fn clone(&self) -> (r: Self)
        ensures
            r == *self,
    {
        match self {
            Signal::Buy { pair, quantity } => Signal::Buy { pair: pair.clone(), quantity: *quantity },
            Signal::Sell { pair, quantity } => Signal::Sell { pair: pair.clone(), quantity: *quantity },
        }
    }
}

/// An open holding.
#[derive(Debug)]
pub struct Position {
    /// The identifier of the order that opened it.
    pub id: String,
    pub pair: String,
    pub side: OrderSide,
    pub entry_price: i64,
    pub quantity: i64,
    pub mode: TradingMode,
    pub opened_at: i64,
}

impl Clone for Position {
    fn clone(&self) -> (r: Self)
        ensures
            r == *self,
    {
        Position {
            id: self.id.clone(),
            pair: self.pair.clone(),
            side: self.side,
            entry_price: self.entry_price,
            quantity: self.quantity,
            mode: self.mode,
            opened_at: self.opened_at,
        }
    }
}

/// A notice from the risk manager or the executor to the alert sink.
#[derive(Debug)]
pub enum RiskEvent {
    OrderRejected { signal: Signal, reason: RejectionReason },
    StopLossTriggered { pair: String, close_price: i64 },
    TakeProfitTriggered { pair: String, close_price: i64 },
    OrderFailed { pair: String, error: String },
    DrawdownHaltEntered { drawdown_pct: i64 },
    DrawdownHaltExited,
}

impl Clone for RiskEvent {
    fn clone(&self) -> (r: Self)
        ensures
            r == *self,
    {
        match self {
            RiskEvent::OrderRejected { signal, reason } => RiskEvent::OrderRejected {
                signal: signal.clone(),
                reason: reason.clone(),
            },
            RiskEvent::StopLossTriggered { pair, close_price } => RiskEvent::StopLossTriggered {
                pair: pair.clone(),
                close_price: *close_price,
            },
            RiskEvent::TakeProfitTriggered { pair, close_price } => RiskEvent::TakeProfitTriggered {
                pair: pair.clone(),
                close_price: *close_price,
            },
            RiskEvent::OrderFailed { pair, error } => RiskEvent::OrderFailed {
                pair: pair.clone(),
                error: error.clone(),
            },
            RiskEvent::DrawdownHaltEntered { drawdown_pct } => RiskEvent::DrawdownHaltEntered {
                drawdown_pct: *drawdown_pct,
            },
            RiskEvent::DrawdownHaltExited => RiskEvent::DrawdownHaltExited,
        }
    }
}


/// What a subscriber of the market fan-out receives.
#[derive(Debug)]
pub enum MarketInput {
    /// The next event.
    Event(MarketEvent),
    /// The subscriber fell behind and this many events were dropped; it goes
    /// on from the newest event.
    Lagged(u64),
    /// The fan-out is closed.
    Closed,
}

} // verus!
