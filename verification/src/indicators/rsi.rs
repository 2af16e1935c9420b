//! Relative Strength Index with Wilder's smoothing.

use vstd::prelude::*;
use vstd::arithmetic::div_mod::{lemma_div_is_ordered, lemma_div_multiples_vanish, lemma_div_pos_is_pos};
use vstd::arithmetic::mul::lemma_mul_is_commutative;

verus! {

/// The index one hundred, as a decimal.
pub const RSI_MAX: i64 = 10_000_000_000;

/// The rise from `prev` to `cur`, zero where the price fell.
pub open spec fn gain(prev: int, cur: int) -> int {
    if cur > prev {
        cur - prev
    } else {
        0
    }
}

/// The fall from `prev` to `cur`, zero where the price rose.
pub open spec fn loss(prev: int, cur: int) -> int {
    if cur < prev {
        prev - cur
    } else {
        0
    }
}

/// The sum of the gains over the first `n` changes of `closes`.
pub open spec fn gain_sum(closes: Seq<i64>, n: nat) -> int
    decreases n,
{
    if n == 0 {
        0
    } else {
        gain_sum(closes, (n - 1) as nat) + gain(closes[n - 1] as int, closes[n as int] as int)
    }
}

/// The sum of the losses over the first `n` changes of `closes`.
pub open spec fn loss_sum(closes: Seq<i64>, n: nat) -> int
    decreases n,
{
    if n == 0 {
        0
    } else {
        loss_sum(closes, (n - 1) as nat) + loss(closes[n - 1] as int, closes[n as int] as int)
    }
}

/// Wilder's average gain after `n` changes: the mean of the first `period`
/// gains, then `(average * (period - 1) + gain) / period` for each later
/// change, each division rounded down to a unit.
pub open spec fn average_gain(closes: Seq<i64>, period: nat, n: nat) -> int
    decreases n,
{
    if n <= period {
        gain_sum(closes, period) / (period as int)
    } else {
        (average_gain(closes, period, (n - 1) as nat) * (period - 1) + gain(
            closes[n - 1] as int,
            closes[n as int] as int,
        )) / (period as int)
    }
}

/// Wilder's average loss after `n` changes, formed as the average gain is.
pub open spec fn average_loss(closes: Seq<i64>, period: nat, n: nat) -> int
    decreases n,
{
    if n <= period {
        loss_sum(closes, period) / (period as int)
    } else {
        (average_loss(closes, period, (n - 1) as nat) * (period - 1) + loss(
            closes[n - 1] as int,
            closes[n as int] as int,
        )) / (period as int)
    }
}

/// The index for an average gain and an average loss: one hundred where
/// there is no loss, else `100 - 100 / (1 + gain / loss)`, which is
/// `100 * gain / (gain + loss)`, rounded down to a unit.
pub open spec fn index_of(average_gain: int, average_loss: int) -> int {
    if average_loss == 0 {
        RSI_MAX as int
    } else {
        (RSI_MAX * average_gain) / (average_gain + average_loss)
    }
}

/// The index of `closes` for `period`, where there are more closes than
/// `period`.
pub open spec fn rsi_of(closes: Seq<i64>, period: nat) -> Option<int> {
    if closes.len() < period + 1 {
        None
    } else {
        let n = (closes.len() - 1) as nat;
        Some(index_of(average_gain(closes, period, n), average_loss(closes, period, n)))
    }
}

/// The largest change between two prices.
pub const MAX_CHANGE: u128 = 0xffff_ffff_ffff_ffff;

proof fn lemma_sums_bounded(closes: Seq<i64>, n: nat)
    requires
        n < closes.len(),
    ensures
        0 <= gain_sum(closes, n) <= n * MAX_CHANGE,
        0 <= loss_sum(closes, n) <= n * MAX_CHANGE,
    decreases n,
{
    if n > 0 {
        lemma_sums_bounded(closes, (n - 1) as nat);
        assert((n - 1) * MAX_CHANGE + MAX_CHANGE == n * MAX_CHANGE) by (nonlinear_arith);
    }
}

/// A value between zero and `d * bound`, divided by `d`, is between zero and
/// `bound`.
proof fn lemma_mean_bounded(total: int, d: int, bound: int)
    requires
        d > 0,
        0 <= total <= d * bound,
    ensures
        0 <= total / d <= bound,
{
    lemma_div_pos_is_pos(total, d);
    lemma_div_is_ordered(total, d * bound, d);
    lemma_mul_is_commutative(d, bound);
    lemma_div_multiples_vanish(bound, d);
}

proof fn lemma_averages_bounded(closes: Seq<i64>, period: nat, n: nat)
    requires
        period >= 1,
        period <= n < closes.len(),
    ensures
        0 <= average_gain(closes, period, n) <= MAX_CHANGE,
        0 <= average_loss(closes, period, n) <= MAX_CHANGE,
    decreases n,
{
    if n <= period {
        lemma_sums_bounded(closes, period);
        lemma_mean_bounded(gain_sum(closes, period), period as int, MAX_CHANGE as int);
        lemma_mean_bounded(loss_sum(closes, period), period as int, MAX_CHANGE as int);
    } else {
        lemma_averages_bounded(closes, period, (n - 1) as nat);
        let g = average_gain(closes, period, (n - 1) as nat);
        let l = average_loss(closes, period, (n - 1) as nat);
        lemma_step_bounded(g, gain(closes[n - 1] as int, closes[n as int] as int), period as int);
        lemma_step_bounded(l, loss(closes[n - 1] as int, closes[n as int] as int), period as int);
    }
}

/// One smoothing step keeps an average within the largest change.
proof fn lemma_step_bounded(average: int, change: int, period: int)
    requires
        period >= 1,
        0 <= average <= MAX_CHANGE,
        0 <= change <= MAX_CHANGE,
    ensures
        0 <= average * (period - 1) + change <= period * MAX_CHANGE,
        0 <= (average * (period - 1) + change) / period <= MAX_CHANGE,
{
    assert(0 <= average * (period - 1) <= MAX_CHANGE * (period - 1)) by (nonlinear_arith)
        requires
            period >= 1,
            0 <= average <= MAX_CHANGE,
    ;
    assert(MAX_CHANGE * (period - 1) + MAX_CHANGE == period * MAX_CHANGE) by (nonlinear_arith);
    lemma_mean_bounded(average * (period - 1) + change, period, MAX_CHANGE as int);
}

/// The index lies between zero and one hundred.
pub proof fn lemma_index_in_range(average_gain: int, average_loss: int)
    requires
        average_gain >= 0,
        average_loss >= 0,
    ensures
        0 <= index_of(average_gain, average_loss) <= RSI_MAX,
{
    if average_loss != 0 {
        let d = average_gain + average_loss;
        assert(0 <= RSI_MAX * average_gain <= d * RSI_MAX) by (nonlinear_arith)
            requires
                average_gain >= 0,
                d >= average_gain,
        ;
        lemma_mean_bounded(RSI_MAX * average_gain, d, RSI_MAX as int);
    }
}

/// The index of any series that has one lies between zero and one hundred.
pub proof fn lemma_rsi_in_range(closes: Seq<i64>, period: nat)
    requires
        period >= 1,
        closes.len() >= period + 1,
    ensures
        rsi_of(closes, period) matches Some(value) && 0 <= value <= RSI_MAX,
{
    let n = (closes.len() - 1) as nat;
    lemma_averages_bounded(closes, period, n);
    lemma_index_in_range(average_gain(closes, period, n), average_loss(closes, period, n));
}

/// Each close is above the one before it.
pub open spec fn strictly_rising(closes: Seq<i64>) -> bool {
    forall|i: int| 0 <= i < closes.len() - 1 ==> closes[i] < #[trigger] closes[i + 1]
}

/// Each close is below the one before it.
pub open spec fn strictly_falling(closes: Seq<i64>) -> bool {
    forall|i: int| 0 <= i < closes.len() - 1 ==> closes[i] > #[trigger] closes[i + 1]
}

proof fn lemma_rising_has_no_loss(closes: Seq<i64>, period: nat, n: nat)
    requires
        period >= 1,
        n < closes.len(),
        period < closes.len(),
        strictly_rising(closes),
    ensures
        loss_sum(closes, n) == 0,
        n >= period ==> average_loss(closes, period, n) == 0,
    decreases n,
{
    if n > 0 {
        lemma_rising_has_no_loss(closes, period, (n - 1) as nat);
        assert(closes[n - 1] < closes[(n - 1) + 1]);
    }
    if n >= period {
        if n <= period {
        } else {
            assert(0 * (period - 1) == 0);
        }
    }
}

proof fn lemma_falling_has_no_gain(closes: Seq<i64>, period: nat, n: nat)
    requires
        period >= 1,
        n < closes.len(),
        period < closes.len(),
        strictly_falling(closes),
    ensures
        gain_sum(closes, n) == 0,
        loss_sum(closes, n) >= n,
        n >= period ==> average_gain(closes, period, n) == 0,
        n >= period ==> average_loss(closes, period, n) >= 1,
    decreases n,
{
    if n > 0 {
        lemma_falling_has_no_gain(closes, period, (n - 1) as nat);
        assert(closes[n - 1] > closes[(n - 1) + 1]);
    }
    if n >= period {
        let p = period as int;
        if n <= period {
            lemma_div_is_ordered(p, loss_sum(closes, period), p);
            vstd::arithmetic::div_mod::lemma_div_by_self(p);
        } else {
            assert(0 * (period - 1) == 0);
            let before = average_loss(closes, period, (n - 1) as nat);
            let fall = loss(closes[n - 1] as int, closes[n as int] as int);
            assert(before * (p - 1) >= p - 1) by (nonlinear_arith)
                requires
                    before >= 1,
                    p >= 1,
            ;
            lemma_div_is_ordered(p, before * (p - 1) + fall, p);
            vstd::arithmetic::div_mod::lemma_div_by_self(p);
        }
    }
}

/// A strictly rising series has the index one hundred.
pub proof fn lemma_rising_series_reads_hundred(closes: Seq<i64>, period: nat)
    requires
        period >= 1,
        closes.len() >= period + 1,
        strictly_rising(closes),
    ensures
        rsi_of(closes, period) == Some(RSI_MAX as int),
{
    lemma_rising_has_no_loss(closes, period, (closes.len() - 1) as nat);
}

/// A strictly falling series has the index zero.
pub proof fn lemma_falling_series_reads_zero(closes: Seq<i64>, period: nat)
    requires
        period >= 1,
        closes.len() >= period + 1,
        strictly_falling(closes),
    ensures
        rsi_of(closes, period) == Some(0int),
{
    let n = (closes.len() - 1) as nat;
    lemma_falling_has_no_gain(closes, period, n);
    let l = average_loss(closes, period, n);
    assert(RSI_MAX * 0 == 0);
    vstd::arithmetic::div_mod::lemma_div_of0(0 + l);
}

/// The Relative Strength Index with its two thresholds.
#[derive(Debug, Clone, Copy)]
pub struct RsiIndicator {
    pub period: usize,
    /// The index at and above which the pair counts as overbought.
    pub overbought: i64,
    /// The index at and below which the pair counts as oversold.
    pub oversold: i64,
}

impl RsiIndicator {
    /// An indicator over `period` changes. The period is at least two.
    pub fn new(period: usize, overbought: i64, oversold: i64) -> (r: Self)
        requires
            period >= 2,
        ensures
            r.period == period,
            r.overbought == overbought,
            r.oversold == oversold,
    {
        RsiIndicator { period, overbought, oversold }
    }

    /// The index of `closes`, oldest first, or `None` where there are not
    /// more closes than the period. The index is between zero and one
    /// hundred.
    pub fn compute(&self, closes: &[i64]) -> (r: Option<i64>)
        requires
            self.period >= 2,
        ensures
            r is Some <==> closes@.len() >= self.period + 1,
            r matches Some(value) ==> Some(value as int) == rsi_of(closes@, self.period as nat),
            r matches Some(value) ==> 0 <= value <= RSI_MAX,
    {
        let period = self.period;
        if closes.len() <= period {
            return None;
        }
        let n = closes.len() - 1;
        let p: u128 = period as u128;
        let mut gains: u128 = 0;
        let mut losses: u128 = 0;
        let mut i: usize = 0;
        while i < period
            invariant
                i <= period < closes@.len(),
                gains == gain_sum(closes@, i as nat),
                losses == loss_sum(closes@, i as nat),
            decreases period - i,
        {
            proof {
                lemma_sums_bounded(closes@, i as nat);
                lemma_sums_bounded(closes@, (i + 1) as nat);
                assert((i + 1) * MAX_CHANGE <= 0xffff_ffff_ffff_ffff * MAX_CHANGE) by (nonlinear_arith)
                    requires
                        0 <= i + 1 <= 0xffff_ffff_ffff_ffff,
                ;
            }
            let prev = closes[i];
            let cur = closes[i + 1];
            if cur > prev {
                gains = gains + (cur as i128 - prev as i128) as u128;
            } else if cur < prev {
                losses = losses + (prev as i128 - cur as i128) as u128;
            }
            i += 1;
        }
        let mut average_g: u128 = gains / p;
        let mut average_l: u128 = losses / p;
        proof {
            lemma_averages_bounded(closes@, period as nat, period as nat);
        }
        while i < n
            invariant
                2 <= period <= i <= n,
                n == closes@.len() - 1,
                p == period,
                average_g == average_gain(closes@, period as nat, i as nat),
                average_l == average_loss(closes@, period as nat, i as nat),
                average_g <= MAX_CHANGE,
                average_l <= MAX_CHANGE,
            decreases n - i,
        {
            let prev = closes[i];
            let cur = closes[i + 1];
            let g: u128 = if cur > prev {
                (cur as i128 - prev as i128) as u128
            } else {
                0
            };
            let l: u128 = if cur < prev {
                (prev as i128 - cur as i128) as u128
            } else {
                0
            };
            proof {
                lemma_step_bounded(average_g as int, g as int, period as int);
                lemma_step_bounded(average_l as int, l as int, period as int);
                assert(period * MAX_CHANGE <= 0xffff_ffff_ffff_ffff * MAX_CHANGE) by (nonlinear_arith)
                    requires
                        0 <= period <= 0xffff_ffff_ffff_ffff,
                ;
            }
            average_g = (average_g * (p - 1) + g) / p;
            average_l = (average_l * (p - 1) + l) / p;
            i += 1;
        }
        proof {
            lemma_index_in_range(average_g as int, average_l as int);
        }
        if average_l == 0 {
            return Some(RSI_MAX);
        }
        assert(RSI_MAX * average_g <= 10_000_000_000 * MAX_CHANGE) by (nonlinear_arith)
            requires
                0 <= average_g <= MAX_CHANGE,
                RSI_MAX == 10_000_000_000,
        ;
        let value: u128 = ((RSI_MAX as u128) * average_g) / (average_g + average_l);
        Some(value as i64)
    }
}

} // verus!
