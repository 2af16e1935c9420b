//! The risk manager: the one arbiter of order flow.
//!
//! It admits or rejects signals, closes positions that reach their stop-loss
//! or take-profit threshold, tracks portfolio value against its peak, and
//! halts the engine when the drawdown limit is reached. Thresholds are
//! compared exactly, by cross-multiplication, so no rounding enters a
//! decision.

use vstd::prelude::*;
use vstd::hash_map::StringHashMap;
use crate::decimal::{floor_div, saturate, saturating, scaled_div, scaled_mul, wide_mul, SCALE};
use crate::types::{
    EngineState, MarketEvent, MarketInput, Order, OrderSide, Position, RejectionReason, RiskEvent,
    Signal,
};

verus! {

/// Hard ceiling on simultaneously open positions. Not configurable.
pub const MAX_OPEN_ORDERS: usize = 5;

/// Risk parameters. The three ratios are fractions of one, as decimals.
#[derive(Debug, Clone, Copy)]
pub struct RiskConfig {
    /// Loss on a position, as a fraction of its entry, at which it is closed.
    pub stop_loss_pct: i64,
    /// Gain on a position, as a fraction of its entry, at which it is closed.
    pub take_profit_pct: i64,
    /// Largest notional of a single order.
    pub max_exposure_per_trade_usd: i64,
    /// Fall of the portfolio from its peak at which the engine halts.
    pub max_drawdown_pct: i64,
}

impl Default for RiskConfig {
    /// Two percent stop-loss, four percent take-profit, one hundred per trade,
    /// ten percent drawdown.
    fn default() -> (c: Self)
        ensures
            c.stop_loss_pct == 2_000_000,
            c.take_profit_pct == 4_000_000,
            c.max_exposure_per_trade_usd == 100 * SCALE,
            c.max_drawdown_pct == 10_000_000,
    {
        RiskConfig {
            stop_loss_pct: 2_000_000,
            take_profit_pct: 4_000_000,
            max_exposure_per_trade_usd: 10_000_000_000,
            max_drawdown_pct: 10_000_000,
        }
    }
}

/// What monitoring decides for one position on one price.
#[derive(Debug, Clone, Copy, PartialEq, Eq, Structural)]
pub enum Verdict {
    Hold,
    StopLoss,
    TakeProfit,
}

/// What a step of the risk manager hands on: orders for the executor and
/// events for the alert sink, each in the order of emission.
#[derive(Debug)]
pub struct RiskOutput {
    pub orders: Vec<Order>,
    pub events: Vec<RiskEvent>,
}

/// What the risk manager's task takes in one turn.
#[derive(Debug)]
pub enum RiskInput {
    /// A signal from the registry.
    Signal(Signal),
    /// The signal channel is closed.
    SignalsClosed,
    /// Something from the market fan-out.
    Market(MarketInput),
}

/// Whether the risk manager's task goes on after `input`: it ends when the
/// signal channel or the market fan-out is closed.
pub open spec fn goes_on(input: RiskInput) -> bool {
    match input {
        RiskInput::SignalsClosed => false,
        RiskInput::Market(MarketInput::Closed) => false,
        _ => true,
    }
}

/// The gain per unit held when a position entered at `entry` is valued at
/// `price`.
pub open spec fn price_move(side: OrderSide, entry: int, price: int) -> int {
    match side {
        OrderSide::Buy => price - entry,
        OrderSide::Sell => entry - price,
    }
}

/// The loss relative to a positive `entry` is at least `stop_loss_pct`.
pub open spec fn stop_loss_reached(stop_loss_pct: int, side: OrderSide, entry: int, price: int) -> bool {
    price_move(side, entry, price) * SCALE <= -(stop_loss_pct * entry)
}

/// The gain relative to a positive `entry` is at least `take_profit_pct`.
pub open spec fn take_profit_reached(take_profit_pct: int, side: OrderSide, entry: int, price: int) -> bool {
    price_move(side, entry, price) * SCALE >= take_profit_pct * entry
}

/// The verdict on `position` when `pair` trades at `price`: positions on
/// other pairs and positions without a positive entry price are held; the
/// stop-loss is tested before the take-profit.
pub open spec fn verdict_of(config: RiskConfig, position: Position, pair: Seq<char>, price: i64) -> Verdict {
    if position.pair@ != pair || position.entry_price <= 0 {
        Verdict::Hold
    } else if stop_loss_reached(
        config.stop_loss_pct as int,
        position.side,
        position.entry_price as int,
        price as int,
    ) {
        Verdict::StopLoss
    } else if take_profit_reached(
        config.take_profit_pct as int,
        position.side,
        position.entry_price as int,
        price as int,
    ) {
        Verdict::TakeProfit
    } else {
        Verdict::Hold
    }
}

/// The profit realised by closing `position` at `price`.
pub open spec fn realized_pnl(position: Position, price: i64) -> i64 {
    saturate(
        scaled_mul(
            price_move(position.side, position.entry_price as int, price as int),
            position.quantity as int,
        ),
    )
}

/// `positions` without the first position whose identifier is `id`.
pub open spec fn without_id(positions: Seq<Position>, id: Seq<char>) -> Seq<Position>
    decreases positions.len(),
{
    if positions.len() == 0 {
        positions
    } else if positions[0].id@ == id {
        positions.drop_first()
    } else {
        seq![positions[0]] + without_id(positions.drop_first(), id)
    }
}

/// The state that monitoring carries from one position to the next.
pub struct Ledger {
    /// The open positions.
    pub positions: Seq<Position>,
    /// Realised portfolio value.
    pub value: i64,
    /// Highest portfolio value so far.
    pub peak: i64,
    /// The positions closed so far, each with the verdict that closed it.
    pub closed: Seq<(Position, Verdict)>,
}

/// The portfolio value after a profit of `pnl` is realised.
pub open spec fn value_after(value: i64, pnl: i64) -> i64 {
    saturate(value + pnl)
}

/// The peak once the portfolio is worth `value`.
pub open spec fn peak_after(peak: i64, value: i64) -> i64 {
    if value > peak {
        value
    } else {
        peak
    }
}

/// One step of monitoring: a position that is not held is closed at `price`,
/// leaves the open positions by its identifier, and its profit is realised.
pub open spec fn monitor_one(config: RiskConfig, ledger: Ledger, position: Position, pair: Seq<char>, price: i64) -> Ledger {
    let verdict = verdict_of(config, position, pair, price);
    if verdict == Verdict::Hold {
        ledger
    } else {
        let value = value_after(ledger.value, realized_pnl(position, price));
        Ledger {
            positions: without_id(ledger.positions, position.id@),
            value,
            peak: peak_after(ledger.peak, value),
            closed: ledger.closed.push((position, verdict)),
        }
    }
}

/// Monitoring of the first `n` positions of `snapshot`, in order.
pub open spec fn monitor(config: RiskConfig, start: Ledger, snapshot: Seq<Position>, n: nat, pair: Seq<char>, price: i64) -> Ledger
    decreases n,
{
    if n == 0 {
        start
    } else {
        monitor_one(
            config,
            monitor(config, start, snapshot, (n - 1) as nat, pair, price),
            snapshot[n - 1],
            pair,
            price,
        )
    }
}

/// The ledger at the start of monitoring.
pub open spec fn opening_ledger(positions: Seq<Position>, value: i64, peak: i64) -> Ledger {
    Ledger { positions, value, peak, closed: Seq::empty() }
}

/// The fall of `value` from a positive `peak`, as a fraction of the peak.
pub open spec fn drawdown(peak: i64, value: i64) -> int {
    scaled_div(peak - value, peak as int)
}

/// The drawdown limit is reached and the engine is not halted yet.
pub open spec fn must_halt(config: RiskConfig, peak: i64, value: i64, state: EngineState) -> bool {
    &&& peak > 0
    &&& drawdown(peak, value) >= config.max_drawdown_pct
    &&& state != EngineState::Halted
}

/// The notional of `quantity` at a known `price` is above `limit`.
pub open spec fn exposure_exceeded(quantity: i64, price: i64, limit: i64) -> bool {
    price > 0 && quantity * price > limit * SCALE
}

/// Why a signal is turned down, if it is. The tests run in this order: the
/// halt, the ceiling on open positions, the exposure at the latest price.
/// A `price` of zero stands for a pair without a price, whose exposure is
/// not tested.
pub open spec fn rejection(config: RiskConfig, state: EngineState, open_positions: nat, price: i64, quantity: i64) -> Option<RejectionReason> {
    if state == EngineState::Halted {
        Some(RejectionReason::DrawdownHalt)
    } else if open_positions >= MAX_OPEN_ORDERS {
        Some(RejectionReason::HardCeilingReached)
    } else if exposure_exceeded(quantity, price, config.max_exposure_per_trade_usd) {
        Some(RejectionReason::ExposureLimitExceeded)
    } else {
        None
    }
}

/// The latest price of `pair`, zero where none is known.
pub open spec fn known_price(prices: Map<Seq<char>, i64>, pair: Seq<char>) -> i64 {
    if prices.contains_key(pair) {
        prices[pair]
    } else {
        0
    }
}

/// `event` tells that `signal` was rejected for `reason`.
pub open spec fn is_rejection(event: RiskEvent, signal: Signal, reason: RejectionReason) -> bool {
    event == (RiskEvent::OrderRejected { signal, reason })
}

/// `event` reports the closing of a position on `pair` at `price` under
/// `verdict`.
pub open spec fn is_trigger(event: RiskEvent, verdict: Verdict, pair: Seq<char>, price: i64) -> bool {
    match verdict {
        Verdict::Hold => false,
        Verdict::StopLoss => event matches RiskEvent::StopLossTriggered { pair: p, close_price }
            && p@ == pair && close_price == price,
        Verdict::TakeProfit => event matches RiskEvent::TakeProfitTriggered { pair: p, close_price }
            && p@ == pair && close_price == price,
    }
}

/// `out` is what the admission of `signal` hands on: one rejection that
/// names the first test that failed, or one market order for the signal's
/// pair, side and quantity.
pub open spec fn admission_of(
    out: RiskOutput,
    config: RiskConfig,
    state: EngineState,
    open_positions: nat,
    prices: Map<Seq<char>, i64>,
    signal: Signal,
) -> bool {
    match rejection(
        config,
        state,
        open_positions,
        known_price(prices, signal.spec_pair()),
        signal.spec_quantity(),
    ) {
        Some(reason) => {
            &&& out.orders@.len() == 0
            &&& out.events@.len() == 1
            &&& is_rejection(out.events@[0], signal, reason)
        },
        None => {
            &&& out.events@.len() == 0
            &&& out.orders@.len() == 1
            &&& out.orders@[0].is_market(signal.spec_pair(), signal.spec_side(), signal.spec_quantity())
        },
    }
}

/// `out` and the state after are what monitoring on `event` gives from the
/// ledger `start` and the engine state `state`: the positions, value and
/// peak are those of the ledger after every position was judged; there is
/// one closing order and one report for each position closed, in order; and
/// the circuit breaker, run on the value and peak after, halts the engine
/// and adds its report where the limit is reached.
pub open spec fn monitoring_of(
    out: RiskOutput,
    config: RiskConfig,
    event: MarketEvent,
    start: Ledger,
    state: EngineState,
    positions_after: Seq<Position>,
    value_after: i64,
    peak_after: i64,
    state_after: EngineState,
) -> bool {
    let done = monitor(config, start, start.positions, start.positions.len(), event.pair@, event.price);
    let halt = must_halt(config, done.peak, done.value, state);
    &&& positions_after == done.positions
    &&& value_after == done.value
    &&& peak_after == done.peak
    &&& out.orders@.len() == done.closed.len()
    &&& forall|k: int| 0 <= k < done.closed.len() ==> closes(#[trigger] out.orders@[k], done.closed[k].0)
    &&& forall|k: int|
        0 <= k < done.closed.len() ==> is_trigger(
            #[trigger] out.events@[k],
            done.closed[k].1,
            event.pair@,
            event.price,
        )
    &&& state_after == if halt {
        EngineState::Halted
    } else {
        state
    }
    &&& out.events@.len() == done.closed.len() + if halt {
        1int
    } else {
        0int
    }
    &&& halt ==> out.events@[done.closed.len() as int] == (RiskEvent::DrawdownHaltEntered {
        drawdown_pct: saturate(drawdown(done.peak, done.value)),
    })
}

/// `order` is the market order that closes `position`.
pub open spec fn closes(order: Order, position: Position) -> bool {
    order.is_market(position.pair@, position.side.spec_opposite(), position.quantity)
}

proof fn lemma_without_id_at(positions: Seq<Position>, id: Seq<char>, i: int)
    requires
        0 <= i < positions.len(),
        positions[i].id@ == id,
        forall|j: int| 0 <= j < i ==> positions[j].id@ != id,
    ensures
        without_id(positions, id) == positions.remove(i),
    decreases i,
{
    if i == 0 {
        assert(positions.remove(0) =~= positions.drop_first());
    } else {
        let rest = positions.drop_first();
        assert forall|j: int| 0 <= j < i - 1 implies rest[j].id@ != id by {
            assert(rest[j] == positions[j + 1]);
        }
        lemma_without_id_at(rest, id, i - 1);
        assert(seq![positions[0]] + rest.remove(i - 1) =~= positions.remove(i));
    }
}

proof fn lemma_without_id_absent(positions: Seq<Position>, id: Seq<char>)
    requires
        forall|j: int| 0 <= j < positions.len() ==> positions[j].id@ != id,
    ensures
        without_id(positions, id) == positions,
    decreases positions.len(),
{
    if positions.len() > 0 {
        let rest = positions.drop_first();
        assert forall|j: int| 0 <= j < rest.len() implies rest[j].id@ != id by {
            assert(rest[j] == positions[j + 1]);
        }
        lemma_without_id_absent(rest, id);
        assert(seq![positions[0]] + rest =~= positions);
    }
}

/// Removes the first position whose identifier is `id`, if there is one.
pub fn remove_position(positions: &mut Vec<Position>, id: &String)
    ensures
        final(positions)@ == without_id(old(positions)@, id@),
{
    let mut i: usize = 0;
    while i < positions.len()
        invariant
            i <= positions.len(),
            positions@ == old(positions)@,
            forall|j: int| 0 <= j < i ==> positions@[j].id@ != id@,
        decreases positions.len() - i,
    {
        if positions[i].id == *id {
            proof {
                lemma_without_id_at(positions@, id@, i as int);
            }
            let _ = positions.remove(i);
            return ;
        }
        i += 1;
    }
    proof {
        lemma_without_id_absent(positions@, id@);
    }
}


/// A copy of the open positions, taken before monitoring walks them.
pub fn snapshot_of(positions: &Vec<Position>) -> (snapshot: Vec<Position>)
    ensures
        snapshot@ == positions@,
{
    let mut snapshot: Vec<Position> = Vec::new();
    let mut i: usize = 0;
    while i < positions.len()
        invariant
            i <= positions.len(),
            snapshot@ == positions@.take(i as int),
        decreases positions.len() - i,
    {
        snapshot.push(positions[i].clone());
        assert(positions@.take(i + 1) =~= positions@.take(i as int).push(positions@[i as int]));
        i += 1;
    }
    assert(positions@.take(positions.len() as int) =~= positions@);
    snapshot
}

/// The gain per unit held, exactly.
fn move_of(side: OrderSide, entry: i64, price: i64) -> (m: i128)
    ensures
        m == price_move(side, entry as int, price as int),
        -0x1_0000_0000_0000_0000 < m < 0x1_0000_0000_0000_0000,
{
    match side {
        OrderSide::Buy => price as i128 - entry as i128,
        OrderSide::Sell => entry as i128 - price as i128,
    }
}

/// The profit realised by closing `position` at `price`.
pub fn pnl_of(position: &Position, price: i64) -> (pnl: i64)
    ensures
        pnl == realized_pnl(*position, price),
{
    let m = move_of(position.side, position.entry_price, price);
    let q: i128 = position.quantity as i128;
    assert(-0x7fff_ffff_ffff_ffff_8000_0000_0000_0000 <= m * q <= 0x7fff_ffff_ffff_ffff_8000_0000_0000_0000)
        by (nonlinear_arith)
        requires
            -0xffff_ffff_ffff_ffff <= m <= 0xffff_ffff_ffff_ffff,
            -0x8000_0000_0000_0000 <= q <= 0x8000_0000_0000_0000,
    ;
    saturating(floor_div(m * q, SCALE as i128))
}

/// The risk manager's own state: its limits, the realised portfolio value
/// with its peak, and the latest price of each pair.
pub struct RiskManager {
    pub config: RiskConfig,
    pub portfolio_peak_usd: i64,
    pub portfolio_value_usd: i64,
    pub latest_prices: StringHashMap<i64>,
}

impl RiskManager {
    /// A manager whose portfolio value and peak are both
    /// `initial_portfolio_usd` and which knows no price yet.
    pub fn new(config: RiskConfig, initial_portfolio_usd: i64) -> (m: Self)
        ensures
            m.config == config,
            m.portfolio_peak_usd == initial_portfolio_usd,
            m.portfolio_value_usd == initial_portfolio_usd,
            m.latest_prices@ == Map::<Seq<char>, i64>::empty(),
    {
        RiskManager {
            config,
            portfolio_peak_usd: initial_portfolio_usd,
            portfolio_value_usd: initial_portfolio_usd,
            latest_prices: StringHashMap::new(),
        }
    }

    /// The verdict on one position when `pair` trades at `price`.
    pub fn verdict(&self, position: &Position, pair: &String, price: i64) -> (v: Verdict)
        ensures
            v == verdict_of(self.config, *position, pair@, price),
    {
        if !(position.pair == *pair) || position.entry_price <= 0 {
            return Verdict::Hold;
        }
        let m = move_of(position.side, position.entry_price, price);
        let scaled: i128 = m * (SCALE as i128);
        let stop = wide_mul(self.config.stop_loss_pct, position.entry_price);
        if scaled <= -stop {
            return Verdict::StopLoss;
        }
        let take = wide_mul(self.config.take_profit_pct, position.entry_price);
        if scaled >= take {
            Verdict::TakeProfit
        } else {
            Verdict::Hold
        }
    }

    /// Realises a profit or loss and raises the peak to the new value where
    /// that is higher.
    pub fn update_portfolio_value(&mut self, realized_pnl_usd: i64)
        ensures
            final(self).portfolio_value_usd == value_after(old(self).portfolio_value_usd, realized_pnl_usd),
            final(self).portfolio_peak_usd == peak_after(
                old(self).portfolio_peak_usd,
                final(self).portfolio_value_usd,
            ),
            final(self).portfolio_peak_usd >= old(self).portfolio_peak_usd,
            final(self).config == old(self).config,
            final(self).latest_prices == old(self).latest_prices,
    {
        let value = saturating(self.portfolio_value_usd as i128 + realized_pnl_usd as i128);
        self.portfolio_value_usd = value;
        if value > self.portfolio_peak_usd {
            self.portfolio_peak_usd = value;
        }
    }

    /// The drawdown circuit breaker: halts the engine when the fall from the
    /// peak reaches the limit, and reports the drawdown it found.
    pub fn check_drawdown(&self, state: &mut EngineState) -> (event: Option<RiskEvent>)
        ensures
            must_halt(self.config, self.portfolio_peak_usd, self.portfolio_value_usd, *old(state)) ==> {
                &&& *final(state) == EngineState::Halted
                &&& event == Some(
                    RiskEvent::DrawdownHaltEntered {
                        drawdown_pct: saturate(drawdown(self.portfolio_peak_usd, self.portfolio_value_usd)),
                    },
                )
            },
            !must_halt(self.config, self.portfolio_peak_usd, self.portfolio_value_usd, *old(state)) ==> {
                &&& *final(state) == *old(state)
                &&& event is None
            },
    {
        if self.portfolio_peak_usd <= 0 {
            return None;
        }
        let fall: i128 = self.portfolio_peak_usd as i128 - self.portfolio_value_usd as i128;
        assert(-0x1_0000_0000_0000_0000 * 100_000_000 <= fall * 100_000_000
            <= 0x1_0000_0000_0000_0000 * 100_000_000);
        let down = floor_div(fall * (SCALE as i128), self.portfolio_peak_usd as i128);
        if down >= self.config.max_drawdown_pct as i128 && *state != EngineState::Halted {
            *state = EngineState::Halted;
            Some(RiskEvent::DrawdownHaltEntered { drawdown_pct: saturating(down) })
        } else {
            None
        }
    }

    /// The event that tells of a rejected signal.
    pub fn reject(signal: Signal, reason: RejectionReason) -> (event: RiskEvent)
        ensures
            is_rejection(event, signal, reason),
    {
        RiskEvent::OrderRejected { signal, reason }
    }

    /// Admission of one signal, given the engine state and the number of open
    /// positions: either one market order for the signal's pair, side and
    /// quantity, or one rejection that names the first test that failed.
    pub fn handle_signal(&self, signal: Signal, state: EngineState, open_positions: usize) -> (out: RiskOutput)
        ensures
            admission_of(out, self.config, state, open_positions as nat, self.latest_prices@, signal),
    {
        let mut orders: Vec<Order> = Vec::new();
        let mut events: Vec<RiskEvent> = Vec::new();
        if state == EngineState::Halted {
            events.push(RiskManager::reject(signal, RejectionReason::DrawdownHalt));
            return RiskOutput { orders, events };
        }
        if open_positions >= MAX_OPEN_ORDERS {
            events.push(RiskManager::reject(signal, RejectionReason::HardCeilingReached));
            return RiskOutput { orders, events };
        }
        let pair_price: i64 = match self.latest_prices.get(signal.pair()) {
            Some(p) => *p,
            None => 0,
        };
        let quantity = signal.quantity();
        if pair_price > 0 && wide_mul(quantity, pair_price) > wide_mul(
            self.config.max_exposure_per_trade_usd,
            SCALE,
        ) {
            events.push(RiskManager::reject(signal, RejectionReason::ExposureLimitExceeded));
            return RiskOutput { orders, events };
        }
        orders.push(Order::market(signal.pair(), signal.side(), quantity));
        RiskOutput { orders, events }
    }

    /// Monitoring on one market event. The event's price becomes the latest
    /// price of its pair. Then each position that was open at the start is
    /// judged at that price, in order; one that is not held is closed by a
    /// market order on the opposite side for its whole quantity, leaves the
    /// open positions, has its profit realised, and is reported. Last, the
    /// drawdown circuit breaker runs on the resulting value and peak.
    pub fn handle_market_event(
        &mut self,
        event: &MarketEvent,
        positions: &mut Vec<Position>,
        state: &mut EngineState,
    ) -> (out: RiskOutput)
        ensures
            final(self).config == old(self).config,
            final(self).latest_prices@ == old(self).latest_prices@.insert(event.pair@, event.price),
            final(positions)@.len() <= old(positions)@.len(),
            final(self).portfolio_peak_usd >= old(self).portfolio_peak_usd,
            monitoring_of(
                out,
                old(self).config,
                *event,
                opening_ledger(
                    old(positions)@,
                    old(self).portfolio_value_usd,
                    old(self).portfolio_peak_usd,
                ),
                *old(state),
                final(positions)@,
                final(self).portfolio_value_usd,
                final(self).portfolio_peak_usd,
                *final(state),
            ),
    {
        self.latest_prices.insert(event.pair.clone(), event.price);
        let snapshot = snapshot_of(positions);
        let mut orders: Vec<Order> = Vec::new();
        let mut events: Vec<RiskEvent> = Vec::new();
        let ghost start = opening_ledger(
            old(positions)@,
            old(self).portfolio_value_usd,
            old(self).portfolio_peak_usd,
        );
        let mut i: usize = 0;
        while i < snapshot.len()
            invariant
                i <= snapshot.len(),
                snapshot@ == old(positions)@,
                self.config == old(self).config,
                self.latest_prices@ == old(self).latest_prices@.insert(event.pair@, event.price),
                *state == *old(state),
                ({
                    let done = monitor(self.config, start, snapshot@, i as nat, event.pair@, event.price);
                    &&& positions@ == done.positions
                    &&& self.portfolio_value_usd == done.value
                    &&& self.portfolio_peak_usd == done.peak
                    &&& orders@.len() == done.closed.len()
                    &&& events@.len() == done.closed.len()
                    &&& forall|k: int|
                        0 <= k < done.closed.len() ==> closes(#[trigger] orders@[k], done.closed[k].0)
                    &&& forall|k: int|
                        0 <= k < done.closed.len() ==> is_trigger(
                            #[trigger] events@[k],
                            done.closed[k].1,
                            event.pair@,
                            event.price,
                        )
                }),
            decreases snapshot.len() - i,
        {
            let position = &snapshot[i];
            let verdict = self.verdict(position, &event.pair, event.price);
            match verdict {
                Verdict::Hold => {},
                Verdict::StopLoss => {
                    orders.push(Order::market(position.pair.as_str(), position.side.opposite(), position.quantity));
                    let pnl = pnl_of(position, event.price);
                    remove_position(positions, &position.id);
                    self.update_portfolio_value(pnl);
                    events.push(
                        RiskEvent::StopLossTriggered {
                            pair: position.pair.clone(),
                            close_price: event.price,
                        },
                    );
                },
                Verdict::TakeProfit => {
                    orders.push(Order::market(position.pair.as_str(), position.side.opposite(), position.quantity));
                    let pnl = pnl_of(position, event.price);
                    remove_position(positions, &position.id);
                    self.update_portfolio_value(pnl);
                    events.push(
                        RiskEvent::TakeProfitTriggered {
                            pair: position.pair.clone(),
                            close_price: event.price,
                        },
                    );
                },
            }
            i += 1;
        }
        proof {
            lemma_monitor_is_monotone(
                self.config,
                start,
                snapshot@,
                snapshot@.len(),
                event.pair@,
                event.price,
            );
        }
        match self.check_drawdown(state) {
            Some(halted) => {
                events.push(halted);
            },
            None => {},
        }
        RiskOutput { orders, events }
    }

    /// One turn of the risk manager's task: what to hand on, and whether the
    /// task goes on. A signal is admitted or rejected under the engine state
    /// and the open positions as they are; a market event is monitored; a
    /// notice of dropped events changes nothing; a closed channel ends the
    /// task.
    pub fn step(&mut self, input: RiskInput, positions: &mut Vec<Position>, state: &mut EngineState) -> (turn: (
        RiskOutput,
        bool,
    ))
        ensures
            turn.1 == goes_on(input),
            final(self).config == old(self).config,
            final(positions)@.len() <= old(positions)@.len(),
            final(self).portfolio_peak_usd >= old(self).portfolio_peak_usd,
            match input {
                RiskInput::Signal(signal) => {
                    &&& *final(self) == *old(self)
                    &&& final(positions)@ == old(positions)@
                    &&& *final(state) == *old(state)
                    &&& admission_of(
                        turn.0,
                        old(self).config,
                        *old(state),
                        old(positions)@.len(),
                        old(self).latest_prices@,
                        signal,
                    )
                },
                RiskInput::Market(MarketInput::Event(event)) => monitoring_of(
                    turn.0,
                    old(self).config,
                    event,
                    opening_ledger(
                        old(positions)@,
                        old(self).portfolio_value_usd,
                        old(self).portfolio_peak_usd,
                    ),
                    *old(state),
                    final(positions)@,
                    final(self).portfolio_value_usd,
                    final(self).portfolio_peak_usd,
                    *final(state),
                ) && final(self).latest_prices@ == old(self).latest_prices@.insert(
                    event.pair@,
                    event.price,
                ),
                _ => {
                    &&& *final(self) == *old(self)
                    &&& final(positions)@ == old(positions)@
                    &&& *final(state) == *old(state)
                    &&& turn.0.orders@.len() == 0
                    &&& turn.0.events@.len() == 0
                },
            },
    {
        match input {
            RiskInput::Signal(signal) => {
                let out = self.handle_signal(signal, *state, positions.len());
                (out, true)
            },
            RiskInput::Market(MarketInput::Event(event)) => {
                let out = self.handle_market_event(&event, positions, state);
                (out, true)
            },
            RiskInput::Market(MarketInput::Lagged(_)) => (
                RiskOutput { orders: Vec::new(), events: Vec::new() },
                true,
            ),
            RiskInput::Market(MarketInput::Closed) => (
                RiskOutput { orders: Vec::new(), events: Vec::new() },
                false,
            ),
            RiskInput::SignalsClosed => (RiskOutput { orders: Vec::new(), events: Vec::new() }, false),
        }
    }
}


/// Removing a position by its identifier never lengthens the list.
pub proof fn lemma_without_id_shrinks(positions: Seq<Position>, id: Seq<char>)
    ensures
        without_id(positions, id).len() <= positions.len(),
    decreases positions.len(),
{
    if positions.len() > 0 && positions[0].id@ != id {
        lemma_without_id_shrinks(positions.drop_first(), id);
    }
}

/// Monitoring opens nothing and never lowers the peak: after any number of
/// positions were judged there are no more open positions than before, the
/// peak is no lower than before, and it is no lower than the value.
pub proof fn lemma_monitor_is_monotone(
    config: RiskConfig,
    start: Ledger,
    snapshot: Seq<Position>,
    n: nat,
    pair: Seq<char>,
    price: i64,
)
    requires
        n <= snapshot.len(),
    ensures
        monitor(config, start, snapshot, n, pair, price).positions.len() <= start.positions.len(),
        monitor(config, start, snapshot, n, pair, price).peak >= start.peak,
        start.peak >= start.value ==> monitor(config, start, snapshot, n, pair, price).peak >= monitor(
            config,
            start,
            snapshot,
            n,
            pair,
            price,
        ).value,
    decreases n,
{
    if n > 0 {
        lemma_monitor_is_monotone(config, start, snapshot, (n - 1) as nat, pair, price);
        let before = monitor(config, start, snapshot, (n - 1) as nat, pair, price);
        lemma_without_id_shrinks(before.positions, snapshot[n - 1].id@);
    }
}

/// No position is closed unless its threshold is reached: every position
/// that monitoring closed was in the snapshot, trades on the event's pair,
/// has a positive entry price, and has reached its stop-loss or its
/// take-profit at the event's price; the verdict recorded with it is the one
/// that the price gives.
pub proof fn lemma_closed_only_at_threshold(
    config: RiskConfig,
    start: Ledger,
    snapshot: Seq<Position>,
    n: nat,
    pair: Seq<char>,
    price: i64,
)
    requires
        n <= snapshot.len(),
        start.closed.len() == 0,
    ensures
        forall|k: int|
            0 <= k < monitor(config, start, snapshot, n, pair, price).closed.len() ==> {
                let (position, verdict) = #[trigger] monitor(config, start, snapshot, n, pair, price).closed[k];
                &&& snapshot.contains(position)
                &&& verdict == verdict_of(config, position, pair, price)
                &&& verdict != Verdict::Hold
                &&& position.pair@ == pair
                &&& position.entry_price > 0
                &&& (stop_loss_reached(
                    config.stop_loss_pct as int,
                    position.side,
                    position.entry_price as int,
                    price as int,
                ) || take_profit_reached(
                    config.take_profit_pct as int,
                    position.side,
                    position.entry_price as int,
                    price as int,
                ))
            },
    decreases n,
{
    if n > 0 {
        lemma_closed_only_at_threshold(config, start, snapshot, (n - 1) as nat, pair, price);
        assert(snapshot.contains(snapshot[n - 1]));
    }
}

/// Where a price reaches both thresholds of a position at once, the
/// stop-loss decides.
pub proof fn lemma_stop_loss_takes_precedence(config: RiskConfig, position: Position, pair: Seq<char>, price: i64)
    requires
        position.pair@ == pair,
        position.entry_price > 0,
        stop_loss_reached(
            config.stop_loss_pct as int,
            position.side,
            position.entry_price as int,
            price as int,
        ),
    ensures
        verdict_of(config, position, pair, price) == Verdict::StopLoss,
{
}

/// Where no position reaches a threshold, monitoring changes nothing: no
/// order, no removal, the same value and peak.
pub proof fn lemma_all_held_changes_nothing(
    config: RiskConfig,
    start: Ledger,
    snapshot: Seq<Position>,
    n: nat,
    pair: Seq<char>,
    price: i64,
)
    requires
        n <= snapshot.len(),
        forall|i: int| 0 <= i < n ==> verdict_of(config, #[trigger] snapshot[i], pair, price) == Verdict::Hold,
    ensures
        monitor(config, start, snapshot, n, pair, price) == start,
    decreases n,
{
    if n > 0 {
        lemma_all_held_changes_nothing(config, start, snapshot, (n - 1) as nat, pair, price);
    }
}

/// The positions among the first `n` of `snapshot` that are not held, in
/// order, each with its verdict.
pub open spec fn closed_among(config: RiskConfig, snapshot: Seq<Position>, n: nat, pair: Seq<char>, price: i64) -> Seq<(Position, Verdict)>
    decreases n,
{
    if n == 0 {
        Seq::empty()
    } else if verdict_of(config, snapshot[n - 1], pair, price) == Verdict::Hold {
        closed_among(config, snapshot, (n - 1) as nat, pair, price)
    } else {
        closed_among(config, snapshot, (n - 1) as nat, pair, price).push(
            (snapshot[n - 1], verdict_of(config, snapshot[n - 1], pair, price)),
        )
    }
}

/// Monitoring closes exactly the positions of the snapshot that are not
/// held, in the order of the snapshot.
pub proof fn lemma_monitor_closes_the_rest(
    config: RiskConfig,
    start: Ledger,
    snapshot: Seq<Position>,
    n: nat,
    pair: Seq<char>,
    price: i64,
)
    requires
        n <= snapshot.len(),
    ensures
        monitor(config, start, snapshot, n, pair, price).closed == start.closed + closed_among(
            config,
            snapshot,
            n,
            pair,
            price,
        ),
    decreases n,
{
    if n == 0 {
        assert(start.closed + Seq::<(Position, Verdict)>::empty() =~= start.closed);
    } else {
        lemma_monitor_closes_the_rest(config, start, snapshot, (n - 1) as nat, pair, price);
        let before = closed_among(config, snapshot, (n - 1) as nat, pair, price);
        let verdict = verdict_of(config, snapshot[n - 1], pair, price);
        if verdict != Verdict::Hold {
            assert((start.closed + before).push((snapshot[n - 1], verdict)) =~= start.closed
                + before.push((snapshot[n - 1], verdict)));
        }
    }
}

/// No two positions carry the same identifier.
pub open spec fn distinct_ids(positions: Seq<Position>) -> bool {
    forall|i: int, j: int|
        0 <= i < j < positions.len() ==> (#[trigger] positions[i]).id@ != (#[trigger] positions[j]).id@
}

/// The positions among the first `n` of `snapshot` that are held, in order.
pub open spec fn held_among(config: RiskConfig, snapshot: Seq<Position>, n: nat, pair: Seq<char>, price: i64) -> Seq<Position>
    decreases n,
{
    if n == 0 {
        Seq::empty()
    } else if verdict_of(config, snapshot[n - 1], pair, price) == Verdict::Hold {
        held_among(config, snapshot, (n - 1) as nat, pair, price).push(snapshot[n - 1])
    } else {
        held_among(config, snapshot, (n - 1) as nat, pair, price)
    }
}

proof fn lemma_held_come_from_the_snapshot(config: RiskConfig, snapshot: Seq<Position>, n: nat, pair: Seq<char>, price: i64)
    requires
        n <= snapshot.len(),
    ensures
        forall|k: int|
            0 <= k < held_among(config, snapshot, n, pair, price).len() ==> exists|i: int|
                0 <= i < n && #[trigger] held_among(config, snapshot, n, pair, price)[k] == snapshot[i],
    decreases n,
{
    if n > 0 {
        lemma_held_come_from_the_snapshot(config, snapshot, (n - 1) as nat, pair, price);
        let before = held_among(config, snapshot, (n - 1) as nat, pair, price);
        let now = held_among(config, snapshot, n, pair, price);
        assert forall|k: int| 0 <= k < now.len() implies exists|i: int|
            0 <= i < n && #[trigger] now[k] == snapshot[i] by {
            if k < before.len() {
                let i = choose|i: int| 0 <= i < n - 1 && before[k] == snapshot[i];
                assert(now[k] == snapshot[i]);
            } else {
                assert(now[k] == snapshot[n - 1]);
            }
        }
    }
}

/// Where no two open positions carry the same identifier, monitoring removes
/// exactly the positions it closes: what stays open are the positions that
/// are held, in their order.
pub proof fn lemma_monitor_keeps_the_held(
    config: RiskConfig,
    value: i64,
    peak: i64,
    snapshot: Seq<Position>,
    n: nat,
    pair: Seq<char>,
    price: i64,
)
    requires
        distinct_ids(snapshot),
        n <= snapshot.len(),
    ensures
        monitor(config, opening_ledger(snapshot, value, peak), snapshot, n, pair, price).positions
            == held_among(config, snapshot, n, pair, price) + snapshot.skip(n as int),
        n == snapshot.len() ==> monitor(
            config,
            opening_ledger(snapshot, value, peak),
            snapshot,
            n,
            pair,
            price,
        ).positions == held_among(config, snapshot, n, pair, price),
    decreases n,
{
    let start = opening_ledger(snapshot, value, peak);
    if n == 0 {
        assert(Seq::<Position>::empty() + snapshot.skip(0) =~= snapshot);
    } else {
        lemma_monitor_keeps_the_held(config, value, peak, snapshot, (n - 1) as nat, pair, price);
        lemma_held_come_from_the_snapshot(config, snapshot, (n - 1) as nat, pair, price);
        let kept = held_among(config, snapshot, (n - 1) as nat, pair, price);
        let before = monitor(config, start, snapshot, (n - 1) as nat, pair, price).positions;
        let position = snapshot[n - 1];
        assert(before == kept + snapshot.skip(n - 1));
        if verdict_of(config, position, pair, price) == Verdict::Hold {
            assert(kept.push(position) + snapshot.skip(n as int) =~= before);
        } else {
            let at = kept.len() as int;
            assert(before[at] == position);
            assert forall|j: int| 0 <= j < at implies before[j].id@ != position.id@ by {
                let i = choose|i: int| 0 <= i < n - 1 && kept[j] == snapshot[i];
                assert(before[j] == snapshot[i]);
                assert(snapshot[i].id@ != snapshot[n - 1].id@);
            }
            lemma_without_id_at(before, position.id@, at);
            assert(before.remove(at) =~= kept + snapshot.skip(n as int));
        }
    }
    if n == snapshot.len() {
        assert(held_among(config, snapshot, n, pair, price) + snapshot.skip(n as int)
            =~= held_among(config, snapshot, n, pair, price));
    }
}

/// One step in the life of the open positions: a signal that, if admitted,
/// is filled and recorded as `opened`, or a market event.
pub enum LedgerStep {
    Signal { state: EngineState, price: i64, quantity: i64, opened: Position },
    Market { pair: Seq<char>, price: i64 },
}

/// The ledger after one step.
pub open spec fn ledger_step(config: RiskConfig, ledger: Ledger, step: LedgerStep) -> Ledger {
    match step {
        LedgerStep::Signal { state, price, quantity, opened } => {
            if rejection(config, state, ledger.positions.len(), price, quantity) is None {
                Ledger { positions: ledger.positions.push(opened), ..ledger }
            } else {
                ledger
            }
        },
        LedgerStep::Market { pair, price } => monitor(
            config,
            ledger,
            ledger.positions,
            ledger.positions.len(),
            pair,
            price,
        ),
    }
}

/// The ledger after the first `n` of `steps`.
pub open spec fn ledger_after(config: RiskConfig, start: Ledger, steps: Seq<LedgerStep>, n: nat) -> Ledger
    decreases n,
{
    if n == 0 {
        start
    } else {
        ledger_step(config, ledger_after(config, start, steps, (n - 1) as nat), steps[n - 1])
    }
}

/// The hard ceiling holds at all times: from a ledger within the ceiling,
/// whatever signals are admitted and filled and whatever market events
/// arrive, the open positions never number more than `MAX_OPEN_ORDERS`, and
/// the peak never falls.
pub proof fn lemma_ceiling_always_holds(config: RiskConfig, start: Ledger, steps: Seq<LedgerStep>, n: nat)
    requires
        n <= steps.len(),
        start.positions.len() <= MAX_OPEN_ORDERS,
    ensures
        ledger_after(config, start, steps, n).positions.len() <= MAX_OPEN_ORDERS,
        ledger_after(config, start, steps, n).peak >= start.peak,
    decreases n,
{
    if n > 0 {
        lemma_ceiling_always_holds(config, start, steps, (n - 1) as nat);
        let before = ledger_after(config, start, steps, (n - 1) as nat);
        match steps[n - 1] {
            LedgerStep::Signal { .. } => {},
            LedgerStep::Market { pair, price } => {
                lemma_monitor_is_monotone(config, before, before.positions, before.positions.len(), pair, price);
            },
        }
    }
}

/// A halted engine admits nothing: whatever the signal, the price and the
/// open positions, the signal is rejected for the drawdown halt.
pub proof fn lemma_halted_rejects_all(config: RiskConfig, open_positions: nat, price: i64, quantity: i64)
    ensures
        rejection(config, EngineState::Halted, open_positions, price, quantity) == Some(
            RejectionReason::DrawdownHalt,
        ),
{
}

} // verus!
