//! The simulated exchange: fills at the latest known price with slippage,
//! and an in-memory ledger of the positions it opened.

use vstd::prelude::*;
use vstd::hash_map::StringHashMap;
use vstd::string::StringExecFns;
use vstd::arithmetic::div_mod::{lemma_fundamental_div_mod, lemma_mod_bound};
use crate::clock::now_millis;
use crate::decimal::{floor_div, saturate, saturating};
use crate::error::Error;
use crate::risk::snapshot_of;
use crate::types::{Fill, Order, OrderSide, Position, TradingMode};

verus! {

/// Ten thousand basis points, as a decimal: the whole of a price.
pub const BPS_WHOLE: i64 = 1_000_000_000_000;

/// The price at which an order on `side` fills when the pair trades at
/// `mid`: a buy pays `mid * (1 + bps / 10000)`, a sell receives
/// `mid * (1 - bps / 10000)`, rounded down to a unit.
pub open spec fn fill_price_of(side: OrderSide, mid: i64, slippage_bps: i64) -> i64 {
    match side {
        OrderSide::Buy => saturate((mid * (BPS_WHOLE + slippage_bps)) / (BPS_WHOLE as int)),
        OrderSide::Sell => saturate((mid * (BPS_WHOLE - slippage_bps)) / (BPS_WHOLE as int)),
    }
}

/// `positions` without the first position on `pair`.
pub open spec fn without_pair(positions: Seq<Position>, pair: Seq<char>) -> Seq<Position>
    decreases positions.len(),
{
    if positions.len() == 0 {
        positions
    } else if positions[0].pair@ == pair {
        positions.drop_first()
    } else {
        seq![positions[0]] + without_pair(positions.drop_first(), pair)
    }
}

/// The position that a filled buy opens.
pub open spec fn opened_by(position: Position, order: Order, price: i64, now: i64) -> bool {
    &&& position.id@ == order.id@
    &&& position.pair@ == order.pair@
    &&& position.side == OrderSide::Buy
    &&& position.entry_price == price
    &&& position.quantity == order.quantity
    &&& position.mode == TradingMode::Paper
    &&& position.opened_at == now
}

/// The ledger after `order` filled at `price`: a buy appends the position
/// it opens, a sell removes the oldest position on its pair, whatever its
/// quantity.
pub open spec fn ledger_after_fill(before: Seq<Position>, after: Seq<Position>, order: Order, price: i64, now: i64) -> bool {
    match order.side {
        OrderSide::Buy => {
            &&& after.len() == before.len() + 1
            &&& after.drop_last() == before
            &&& opened_by(after.last(), order, price, now)
        },
        OrderSide::Sell => after == without_pair(before, order.pair@),
    }
}

/// `fill` confirms `order` at `price` and time `now`.
pub open spec fn confirms(fill: Fill, order: Order, price: i64, now: i64) -> bool {
    &&& fill.order_id@ == order.id@
    &&& fill.pair@ == order.pair@
    &&& fill.side == order.side
    &&& fill.fill_price == price
    &&& fill.quantity == order.quantity
    &&& fill.timestamp == now
}

/// The message of the error for an order on a pair without a price.
pub open spec fn no_price_for_order(pair: Seq<char>) -> Seq<char> {
    "PaperClient has no price for pair '"@ + pair + "'. Ensure market events are flowing."@
}

/// The message of the error for a price query on a pair without a price.
pub open spec fn no_price_available(pair: Seq<char>) -> Seq<char> {
    "No price available for "@ + pair
}

proof fn lemma_without_pair_at(positions: Seq<Position>, pair: Seq<char>, i: int)
    requires
        0 <= i < positions.len(),
        positions[i].pair@ == pair,
        forall|j: int| 0 <= j < i ==> positions[j].pair@ != pair,
    ensures
        without_pair(positions, pair) == positions.remove(i),
    decreases i,
{
    if i == 0 {
        assert(positions.remove(0) =~= positions.drop_first());
    } else {
        let rest = positions.drop_first();
        assert forall|j: int| 0 <= j < i - 1 implies rest[j].pair@ != pair by {
            assert(rest[j] == positions[j + 1]);
        }
        lemma_without_pair_at(rest, pair, i - 1);
        assert(seq![positions[0]] + rest.remove(i - 1) =~= positions.remove(i));
    }
}

proof fn lemma_without_pair_absent(positions: Seq<Position>, pair: Seq<char>)
    requires
        forall|j: int| 0 <= j < positions.len() ==> positions[j].pair@ != pair,
    ensures
        without_pair(positions, pair) == positions,
    decreases positions.len(),
{
    if positions.len() > 0 {
        let rest = positions.drop_first();
        assert forall|j: int| 0 <= j < rest.len() implies rest[j].pair@ != pair by {
            assert(rest[j] == positions[j + 1]);
        }
        lemma_without_pair_absent(rest, pair);
        assert(seq![positions[0]] + rest =~= positions);
    }
}

/// Removes the first position on `pair`, if there is one.
fn remove_first_on(positions: &mut Vec<Position>, pair: &String)
    ensures
        final(positions)@ == without_pair(old(positions)@, pair@),
{
    let mut i: usize = 0;
    while i < positions.len()
        invariant
            i <= positions.len(),
            positions@ == old(positions)@,
            forall|j: int| 0 <= j < i ==> positions@[j].pair@ != pair@,
        decreases positions.len() - i,
    {
        if positions[i].pair == *pair {
            proof {
                lemma_without_pair_at(positions@, pair@, i as int);
            }
            let _ = positions.remove(i);
            return ;
        }
        i += 1;
    }
    proof {
        lemma_without_pair_absent(positions@, pair@);
    }
}

/// The fill price for `side` at `mid` under `slippage_bps`.
pub fn fill_price(side: OrderSide, mid: i64, slippage_bps: i64) -> (price: i64)
    ensures
        price == fill_price_of(side, mid, slippage_bps),
{
    let factor: i128 = match side {
        OrderSide::Buy => BPS_WHOLE as i128 + slippage_bps as i128,
        OrderSide::Sell => BPS_WHOLE as i128 - slippage_bps as i128,
    };
    let m: i128 = mid as i128;
    assert(-0x7000_0000_0000_0000_0000_0000_0000_0000 <= m * factor <= 0x7000_0000_0000_0000_0000_0000_0000_0000)
        by (nonlinear_arith)
        requires
            -0x8000_0000_0000_0000 <= m <= 0x8000_0000_0000_0000,
            -0x8000_0100_0000_0000 <= factor <= 0x8000_0100_0000_0000,
    ;
    saturating(floor_div(m * factor, BPS_WHOLE as i128))
}

/// The simulated exchange.
pub struct PaperClient {
    /// Starting balance. Kept for the record; no fill changes it.
    pub balance_usd: i64,
    /// Open simulated positions, oldest first.
    pub positions: Vec<Position>,
    /// Latest known price of each pair.
    pub prices: StringHashMap<i64>,
    /// Slippage in basis points, as a decimal.
    pub slippage_bps: i64,
}

impl PaperClient {
    /// A client with an empty ledger that knows no price.
    pub fn new(initial_balance_usd: i64, slippage_bps: i64) -> (c: Self)
        ensures
            c.balance_usd == initial_balance_usd,
            c.slippage_bps == slippage_bps,
            c.positions@ == Seq::<Position>::empty(),
            c.prices@ == Map::<Seq<char>, i64>::empty(),
    {
        PaperClient {
            balance_usd: initial_balance_usd,
            positions: Vec::new(),
            prices: StringHashMap::new(),
            slippage_bps,
        }
    }

    /// Sets the latest price of `pair`.
    pub fn update_price(&mut self, pair: &str, price: i64)
        ensures
            final(self).prices@ == old(self).prices@.insert(pair@, price),
            final(self).positions == old(self).positions,
            final(self).balance_usd == old(self).balance_usd,
            final(self).slippage_bps == old(self).slippage_bps,
    {
        self.prices.insert(pair.to_owned(), price);
    }

    /// The open positions, oldest first.
    pub fn positions_handle(&self) -> (positions: &Vec<Position>)
        ensures
            positions@ == self.positions@,
    {
        &self.positions
    }

    /// Fills `order` at time `now`. Fails, and changes nothing, where the
    /// order's pair has no price. Otherwise the fill carries the order's
    /// identifier, pair, side and quantity at the slipped price, and the
    /// ledger gains or loses a position by the order's side.
    pub fn submit_order_at(&mut self, order: &Order, now: i64) -> (result: Result<Fill, Error>)
        ensures
            final(self).prices == old(self).prices,
            final(self).balance_usd == old(self).balance_usd,
            final(self).slippage_bps == old(self).slippage_bps,
            !old(self).prices@.contains_key(order.pair@) ==> {
                &&& result matches Err(Error::Exchange(message))
                &&& message@ == no_price_for_order(order.pair@)
                &&& final(self).positions == old(self).positions
            },
            old(self).prices@.contains_key(order.pair@) ==> {
                let price = fill_price_of(order.side, old(self).prices@[order.pair@], old(self).slippage_bps);
                &&& result matches Ok(fill)
                &&& confirms(fill, *order, price, now)
                &&& ledger_after_fill(old(self).positions@, final(self).positions@, *order, price, now)
            },
    {
        let mid: i64 = match self.prices.get(order.pair.as_str()) {
            Some(p) => *p,
            None => {
                let message = "PaperClient has no price for pair '".to_owned().concat(
                    order.pair.as_str(),
                ).concat("'. Ensure market events are flowing.");
                return Err(Error::Exchange(message));
            },
        };
        let price = fill_price(order.side, mid, self.slippage_bps);
        let fill = Fill {
            order_id: order.id.clone(),
            pair: order.pair.clone(),
            side: order.side,
            fill_price: price,
            quantity: order.quantity,
            timestamp: now,
        };
        match order.side {
            OrderSide::Buy => {
                let ghost before = self.positions@;
                self.positions.push(
                    Position {
                        id: order.id.clone(),
                        pair: order.pair.clone(),
                        side: OrderSide::Buy,
                        entry_price: price,
                        quantity: order.quantity,
                        mode: TradingMode::Paper,
                        opened_at: now,
                    },
                );
                assert(self.positions@.drop_last() =~= before);
            },
            OrderSide::Sell => {
                remove_first_on(&mut self.positions, &order.pair);
            },
        }
        Ok(fill)
    }

    /// Fills `order` now. As `submit_order_at`, at the time the clock gives.
    pub fn submit_order(&mut self, order: &Order) -> (result: Result<Fill, Error>)
        ensures
            final(self).prices == old(self).prices,
            final(self).balance_usd == old(self).balance_usd,
            final(self).slippage_bps == old(self).slippage_bps,
            !old(self).prices@.contains_key(order.pair@) ==> {
                &&& result matches Err(Error::Exchange(message))
                &&& message@ == no_price_for_order(order.pair@)
                &&& final(self).positions == old(self).positions
            },
            old(self).prices@.contains_key(order.pair@) ==> {
                let price = fill_price_of(order.side, old(self).prices@[order.pair@], old(self).slippage_bps);
                &&& result matches Ok(fill)
                &&& confirms(fill, *order, price, fill.timestamp)
                &&& ledger_after_fill(old(self).positions@, final(self).positions@, *order, price, fill.timestamp)
            },
    {
        self.submit_order_at(order, now_millis())
    }

    /// A copy of the open positions, oldest first. Never fails.
    pub fn open_positions(&self) -> (result: Result<Vec<Position>, Error>)
        ensures
            result matches Ok(positions) && positions@ == self.positions@,
    {
        Ok(snapshot_of(&self.positions))
    }

    /// The latest price of `pair`, or an exchange error where none is known.
    pub fn current_price(&self, pair: &str) -> (result: Result<i64, Error>)
        ensures
            self.prices@.contains_key(pair@) ==> result == Ok::<i64, Error>(self.prices@[pair@]),
            !self.prices@.contains_key(pair@) ==> {
                &&& result matches Err(Error::Exchange(message))
                &&& message@ == no_price_available(pair@)
            },
    {
        match self.prices.get(pair) {
            Some(p) => Ok(*p),
            None => Err(Error::Exchange("No price available for ".to_owned().concat(pair))),
        }
    }
}


/// The slipped price before rounding, in units of one part in `BPS_WHOLE`.
pub open spec fn slipped_exactly(side: OrderSide, mid: i64, slippage_bps: i64) -> int {
    match side {
        OrderSide::Buy => mid * (BPS_WHOLE + slippage_bps),
        OrderSide::Sell => mid * (BPS_WHOLE - slippage_bps),
    }
}

/// The fill price is the slipped price `mid * (1 +/- bps / 10000)` itself,
/// rounded down to a unit: it is at most the exact value and less than one
/// unit below it. This holds wherever the exact value is within the range of
/// a decimal.
pub proof fn lemma_fill_price_within_a_unit(side: OrderSide, mid: i64, slippage_bps: i64)
    requires
        i64::MIN <= slipped_exactly(side, mid, slippage_bps) / (BPS_WHOLE as int) <= i64::MAX,
    ensures
        fill_price_of(side, mid, slippage_bps) * BPS_WHOLE <= slipped_exactly(side, mid, slippage_bps),
        slipped_exactly(side, mid, slippage_bps) < (fill_price_of(side, mid, slippage_bps) + 1) * BPS_WHOLE,
{
    let exact = slipped_exactly(side, mid, slippage_bps);
    lemma_fundamental_div_mod(exact, BPS_WHOLE as int);
    lemma_mod_bound(exact, BPS_WHOLE as int);
}

/// Without slippage an order fills at the price itself.
pub proof fn lemma_no_slippage_fills_at_mid(side: OrderSide, mid: i64)
    ensures
        fill_price_of(side, mid, 0) == mid,
{
    assert((mid * BPS_WHOLE) / (BPS_WHOLE as int) == mid) by (nonlinear_arith);
    assert(BPS_WHOLE + 0 == BPS_WHOLE && BPS_WHOLE - 0 == BPS_WHOLE);
}

proof fn lemma_without_pair_after_push(positions: Seq<Position>, opened: Position, pair: Seq<char>)
    requires
        opened.pair@ == pair,
    ensures
        without_pair(positions.push(opened), pair).len() == positions.len(),
        (forall|j: int| 0 <= j < positions.len() ==> positions[j].pair@ != pair) ==> without_pair(
            positions.push(opened),
            pair,
        ) == positions,
    decreases positions.len(),
{
    let grown = positions.push(opened);
    if positions.len() == 0 {
        assert(grown.drop_first() =~= positions);
    } else if positions[0].pair@ == pair {
    } else {
        let rest = positions.drop_first();
        assert(grown.drop_first() =~= rest.push(opened));
        lemma_without_pair_after_push(rest, opened, pair);
        if forall|j: int| 0 <= j < positions.len() ==> positions[j].pair@ != pair {
            assert forall|j: int| 0 <= j < rest.len() implies rest[j].pair@ != pair by {
                assert(rest[j] == positions[j + 1]);
            }
            assert(seq![positions[0]] + rest =~= positions);
        }
    }
}

/// A buy followed by a sell on the same pair leaves as many positions as
/// there were, and leaves the ledger as it was where it held no position on
/// that pair: from an empty ledger the round trip ends on an empty ledger.
pub proof fn lemma_buy_then_sell_round_trip(
    before: Seq<Position>,
    between: Seq<Position>,
    after: Seq<Position>,
    buy: Order,
    sell: Order,
    buy_price: i64,
    sell_price: i64,
    bought_at: i64,
    sold_at: i64,
)
    requires
        buy.side == OrderSide::Buy,
        sell.side == OrderSide::Sell,
        buy.pair@ == sell.pair@,
        ledger_after_fill(before, between, buy, buy_price, bought_at),
        ledger_after_fill(between, after, sell, sell_price, sold_at),
    ensures
        after.len() == before.len(),
        (forall|j: int| 0 <= j < before.len() ==> before[j].pair@ != buy.pair@) ==> after == before,
        before.len() == 0 ==> after == Seq::<Position>::empty(),
{
    assert(between =~= before.push(between.last()));
    lemma_without_pair_after_push(before, between.last(), sell.pair@);
    if before.len() == 0 {
        assert(after =~= Seq::<Position>::empty());
    }
}


/// For a price of ten or more the rounding of the fill price is below one
/// part in a thousand million of the exact slipped price.
pub proof fn lemma_fill_price_relative_error(side: OrderSide, mid: i64, slippage_bps: i64)
    requires
        1_000_000_000 <= slipped_exactly(side, mid, slippage_bps) / (BPS_WHOLE as int) <= i64::MAX,
    ensures
        (slipped_exactly(side, mid, slippage_bps) - fill_price_of(side, mid, slippage_bps) * BPS_WHOLE)
            * 1_000_000_000 < slipped_exactly(side, mid, slippage_bps),
{
    let exact = slipped_exactly(side, mid, slippage_bps);
    lemma_fundamental_div_mod(exact, BPS_WHOLE as int);
    lemma_mod_bound(exact, BPS_WHOLE as int);
}

} // verus!
