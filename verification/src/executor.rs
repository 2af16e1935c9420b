//! The order executor: what becomes of an order once the exchange has
//! answered.
//!
//! The executor submits each approved order once and never retries. A fill
//! is handed to the persistence sink as the position it opens; a failure is
//! reported to the alert sink.

use vstd::prelude::*;
use crate::error::Error;
use crate::types::{Fill, Order, Position, RiskEvent, TradingMode};

verus! {

/// What the executor does after the exchange answered.
#[derive(Debug)]
pub enum ExecutorStep {
    /// Hand the fill to the persistence sink, as this position.
    Persist(Position),
    /// Send this event to the alert sink.
    Alert(RiskEvent),
}

/// `position` is the record of `fill` under `mode`: it has the fill's order
/// identifier, pair, side and quantity, entered at the fill price when the
/// fill happened.
pub open spec fn records(position: Position, fill: Fill, mode: TradingMode) -> bool {
    &&& position.id@ == fill.order_id@
    &&& position.pair@ == fill.pair@
    &&& position.side == fill.side
    &&& position.entry_price == fill.fill_price
    &&& position.quantity == fill.quantity
    &&& position.mode == mode
    &&& position.opened_at == fill.timestamp
}

/// `event` reports that the order on `pair` failed with `error`.
pub open spec fn reports_failure(event: RiskEvent, pair: Seq<char>, error: Error) -> bool {
    event matches RiskEvent::OrderFailed { pair: p, error: e } && p@ == pair && e@ == error.text()
}

/// The executor, with the mode it persists fills under.
#[derive(Debug)]
pub struct OrderExecutor {
    pub mode: TradingMode,
}

impl OrderExecutor {
    pub fn new(mode: TradingMode) -> (e: Self)
        ensures
            e.mode == mode,
    {
        OrderExecutor { mode }
    }

    /// The position that the persistence sink records for `fill`.
    pub fn position_of(&self, fill: &Fill) -> (position: Position)
        ensures
            records(position, *fill, self.mode),
    {
        Position {
            id: fill.order_id.clone(),
            pair: fill.pair.clone(),
            side: fill.side,
            entry_price: fill.fill_price,
            quantity: fill.quantity,
            mode: self.mode,
            opened_at: fill.timestamp,
        }
    }

    /// The step after the exchange answered the submission of `order`: a
    /// fill is persisted, an error is reported as a failed order on the
    /// order's pair with the error in words.
    pub fn on_submitted(&self, order: &Order, answer: &Result<Fill, Error>) -> (step: ExecutorStep)
        ensures
            match *answer {
                Ok(fill) => step matches ExecutorStep::Persist(position) && records(
                    position,
                    fill,
                    self.mode,
                ),
                Err(error) => step matches ExecutorStep::Alert(event) && reports_failure(
                    event,
                    order.pair@,
                    error,
                ),
            },
    {
        match answer {
            Ok(fill) => ExecutorStep::Persist(self.position_of(fill)),
            Err(error) => ExecutorStep::Alert(
                RiskEvent::OrderFailed { pair: order.pair.clone(), error: error.to_string() },
            ),
        }
    }
}

} // verus!
