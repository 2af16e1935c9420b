//! Moving Average Convergence/Divergence.
//!
//! The line is the fast exponential moving average of the closes less the
//! slow one; its signal line is the exponential moving average of the line.
//! The indicator reports whether the line crossed its signal line on the
//! latest bar.

use vstd::prelude::*;
use vstd::arithmetic::div_mod::{lemma_div_is_ordered, lemma_div_multiples_vanish};
use vstd::arithmetic::mul::lemma_mul_is_commutative;
use crate::decimal::{floor_div, saturate, saturating};

verus! {

/// What the latest bar shows.
#[derive(Debug, Clone, Copy, PartialEq, Eq, Structural)]
pub enum MacdSignal {
    /// The line crossed above its signal line.
    Bullish,
    /// The line crossed below its signal line.
    Bearish,
    /// No crossover on the latest bar.
    Neutral,
}

/// The sum of the first `n` values of `data`.
pub open spec fn sum_of(data: Seq<i64>, n: nat) -> int
    decreases n,
{
    if n == 0 {
        0
    } else {
        sum_of(data, (n - 1) as nat) + data[n - 1]
    }
}

/// Where the tail that an average reads begins: the average looks back over
/// three periods at most.
pub open spec fn tail_start(len: nat, period: nat) -> nat {
    if len >= 3 * period {
        (len - 3 * period) as nat
    } else {
        0
    }
}

/// The moving average of `tail` after its first `k` values: the mean of the
/// first `seed` values, then `(2 * value + (period - 1) * average) /
/// (period + 1)` for each later value, which is the smoothing by
/// `2 / (period + 1)`. Each division rounds down to a unit.
pub open spec fn smoothed(tail: Seq<i64>, seed: nat, period: nat, k: nat) -> int
    decreases k,
{
    if k <= seed {
        sum_of(tail, seed) / (seed as int)
    } else {
        (2 * tail[k - 1] + (period - 1) * smoothed(tail, seed, period, (k - 1) as nat)) / (period + 1) as int
    }
}

/// The exponential moving average of `data` over `period`; zero for no data
/// or no period.
pub open spec fn ema_of(data: Seq<i64>, period: nat) -> int {
    if data.len() == 0 || period == 0 {
        0
    } else {
        let tail = data.skip(tail_start(data.len(), period) as int);
        let seed = if period < tail.len() {
            period
        } else {
            tail.len()
        };
        smoothed(tail, seed, period, tail.len())
    }
}

/// The value of the line over the first `upto` closes of `window`.
pub open spec fn line_value(window: Seq<i64>, upto: int, fast: nat, slow: nat) -> i64 {
    saturate(ema_of(window.take(upto), fast) - ema_of(window.take(upto), slow))
}

/// The last `signal + 1` values of the line over `window`, which holds
/// `slow + signal` closes.
pub open spec fn line_of(window: Seq<i64>, fast: nat, slow: nat, signal: nat) -> Seq<i64> {
    Seq::new(signal + 1, |j: int| line_value(window, slow + j, fast, slow))
}

/// The crossover between two bars: bullish where the line was at or below
/// its signal line and is now above it, bearish for the mirror image.
pub open spec fn crossover(prev_line: int, prev_signal: int, line: int, signal: int) -> MacdSignal {
    if prev_line <= prev_signal && line > signal {
        MacdSignal::Bullish
    } else if prev_line >= prev_signal && line < signal {
        MacdSignal::Bearish
    } else {
        MacdSignal::Neutral
    }
}

/// What the indicator reads from `closes`: nothing for fewer than
/// `slow + signal` closes or without a signal period, else the crossover on
/// the latest bar.
pub open spec fn macd_of(closes: Seq<i64>, fast: nat, slow: nat, signal: nat) -> Option<MacdSignal> {
    if signal == 0 || closes.len() < slow + signal {
        None
    } else {
        let window = closes.skip(closes.len() - (slow + signal));
        let line = line_of(window, fast, slow, signal);
        Some(
            crossover(
                line[signal - 1] as int,
                ema_of(line.take(signal as int), signal),
                line[signal as int] as int,
                ema_of(line, signal),
            ),
        )
    }
}

/// A total between `d * lo` and `d * hi`, divided by `d`, is between `lo`
/// and `hi`.
proof fn lemma_mean_between(total: int, d: int, lo: int, hi: int)
    requires
        d > 0,
        d * lo <= total <= d * hi,
    ensures
        lo <= total / d <= hi,
{
    lemma_div_is_ordered(d * lo, total, d);
    lemma_div_is_ordered(total, d * hi, d);
    lemma_div_multiples_vanish(lo, d);
    lemma_div_multiples_vanish(hi, d);
}

proof fn lemma_sum_between(data: Seq<i64>, n: nat)
    requires
        n <= data.len(),
    ensures
        n * i64::MIN <= sum_of(data, n) <= n * i64::MAX,
    decreases n,
{
    if n > 0 {
        lemma_sum_between(data, (n - 1) as nat);
        assert((n - 1) * i64::MIN + i64::MIN == n * i64::MIN) by (nonlinear_arith);
        assert((n - 1) * i64::MAX + i64::MAX == n * i64::MAX) by (nonlinear_arith);
    }
}

/// One smoothing step keeps the average within the range of its inputs.
proof fn lemma_step_between(value: int, average: int, period: int)
    requires
        period >= 1,
        i64::MIN <= value <= i64::MAX,
        i64::MIN <= average <= i64::MAX,
    ensures
        (period + 1) * i64::MIN <= 2 * value + (period - 1) * average <= (period + 1) * i64::MAX,
        i64::MIN <= (2 * value + (period - 1) * average) / (period + 1) <= i64::MAX,
{
    assert((period - 1) * i64::MIN <= (period - 1) * average <= (period - 1) * i64::MAX)
        by (nonlinear_arith)
        requires
            period >= 1,
            i64::MIN <= average <= i64::MAX,
    ;
    assert(2 * i64::MIN + (period - 1) * i64::MIN == (period + 1) * i64::MIN) by (nonlinear_arith);
    assert(2 * i64::MAX + (period - 1) * i64::MAX == (period + 1) * i64::MAX) by (nonlinear_arith);
    lemma_mean_between(
        2 * value + (period - 1) * average,
        period + 1,
        i64::MIN as int,
        i64::MAX as int,
    );
}

/// The exponential moving average over `period` of the values of `data`
/// from index `from` up to, not including, index `to`.
pub fn ema(data: &[i64], from: usize, to: usize, period: usize) -> (average: i64)
    requires
        from <= to <= data@.len(),
    ensures
        average == ema_of(data@.subrange(from as int, to as int), period as nat),
{
    let whole = data.len();
    let len = to - from;
    if len == 0 || period == 0 {
        return 0;
    }
    let start = if period <= len / 3 {
        len - 3 * period
    } else {
        0
    };
    let ghost tail = data@.subrange(from as int, to as int).skip(start as int);
    let base = from + start;
    let count = len - start;
    let seed = if period < count {
        period
    } else {
        count
    };
    assert(forall|j: int| 0 <= j < count ==> tail[j] == data@[base + j]);
    let mut total: i128 = 0;
    let mut k: usize = 0;
    while k < seed
        invariant
            k <= seed <= count,
            base + count <= data@.len() == whole,
            tail.len() == count,
            forall|j: int| 0 <= j < count ==> tail[j] == data@[base + j],
            total == sum_of(tail, k as nat),
        decreases seed - k,
    {
        proof {
            lemma_sum_between(tail, k as nat);
            lemma_sum_between(tail, (k + 1) as nat);
            assert(-0x7fff_ffff_ffff_ffff_8000_0000_0000_0000 <= (k + 1) * i64::MIN && (k + 1) * i64::MAX
                <= 0x7fff_ffff_ffff_ffff_8000_0000_0000_0000) by (nonlinear_arith)
                requires
                    0 <= k + 1 <= 0xffff_ffff_ffff_ffff,
            ;
        }
        total = total + data[base + k] as i128;
        k += 1;
    }
    proof {
        lemma_sum_between(tail, seed as nat);
        lemma_mul_is_commutative(seed as int, i64::MIN as int);
        lemma_mean_between(total as int, seed as int, i64::MIN as int, i64::MAX as int);
    }
    let mut average: i64 = floor_div(total, seed as i128) as i64;
    while k < count
        invariant
            1 <= seed <= k <= count,
            seed == if period < count {
                period
            } else {
                count
            },
            base + count <= data@.len() == whole,
            tail.len() == count,
            forall|j: int| 0 <= j < count ==> tail[j] == data@[base + j],
            average == smoothed(tail, seed as nat, period as nat, k as nat),
        decreases count - k,
    {
        let value = data[base + k];
        proof {
            lemma_step_between(value as int, average as int, period as int);
            assert(-0x7fff_ffff_ffff_ffff_8000_0000_0000_0000 <= (period + 1) * i64::MIN && (period + 1)
                * i64::MAX <= 0x7fff_ffff_ffff_ffff_8000_0000_0000_0000) by (nonlinear_arith)
                requires
                    0 <= period + 1 <= 0xffff_ffff_ffff_ffff,
            ;
            assert(-0x7fff_ffff_ffff_ffff_8000_0000_0000_0000 <= (period - 1) * average
                <= 0x7fff_ffff_ffff_ffff_8000_0000_0000_0000) by (nonlinear_arith)
                requires
                    0 <= period - 1 <= 0xffff_ffff_ffff_ffff,
                    i64::MIN <= average <= i64::MAX,
            ;
        }
        let weight: i128 = period as i128 - 1;
        let numerator: i128 = 2 * (value as i128) + weight * (average as i128);
        average = floor_div(numerator, period as i128 + 1) as i64;
        k += 1;
    }
    average
}

/// The indicator's three periods.
#[derive(Debug, Clone, Copy)]
pub struct MacdIndicator {
    pub fast: usize,
    pub slow: usize,
    pub signal: usize,
}

impl MacdIndicator {
    /// An indicator whose fast period is shorter than its slow period.
    pub fn new(fast: usize, slow: usize, signal: usize) -> (m: Self)
        requires
            fast < slow,
        ensures
            m.fast == fast,
            m.slow == slow,
            m.signal == signal,
    {
        MacdIndicator { fast, slow, signal }
    }

    /// The crossover on the latest bar of `closes`, oldest first, or `None`
    /// for fewer than `slow + signal` closes or a signal period of zero.
    pub fn compute(&self, closes: &[i64]) -> (r: Option<MacdSignal>)
        requires
            self.fast < self.slow,
        ensures
            r == macd_of(closes@, self.fast as nat, self.slow as nat, self.signal as nat),
            r is None <==> self.signal == 0 || closes@.len() < self.slow + self.signal,
    {
        let fast = self.fast;
        let slow = self.slow;
        let signal = self.signal;
        let whole = closes.len();
        if signal == 0 || signal > usize::MAX - slow {
            return None;
        }
        if closes.len() < slow + signal {
            return None;
        }
        let start = closes.len() - (slow + signal);
        let ghost window = closes@.skip(start as int);
        let ghost target = line_of(window, fast as nat, slow as nat, signal as nat);
        let mut line: Vec<i64> = Vec::new();
        let mut j: usize = 0;
        while j <= signal
            invariant
                j <= signal + 1,
                1 <= slow,
                slow + signal <= usize::MAX,
                start + slow + signal == closes@.len() == whole,
                window == closes@.skip(start as int),
                target == line_of(window, fast as nat, slow as nat, signal as nat),
                line@.len() == j,
                forall|i: int| 0 <= i < j ==> line@[i] == target[i],
            decreases signal + 1 - j,
        {
            let end = start + slow + j;
            assert(window.take(slow + j) =~= closes@.subrange(start as int, end as int));
            let quick = ema(closes, start, end, fast);
            let slack = ema(closes, start, end, slow);
            line.push(saturating(quick as i128 - slack as i128));
            j += 1;
        }
        assert(line@ =~= target);
        assert(line@.subrange(0, signal as int) =~= line@.take(signal as int));
        assert(line@.subrange(0, signal + 1) =~= line@);
        let prev_signal = ema(line.as_slice(), 0, signal, signal);
        let cur_signal = ema(line.as_slice(), 0, signal + 1, signal);
        let prev_line = line[signal - 1];
        let cur_line = line[signal];
        if prev_line <= prev_signal && cur_line > cur_signal {
            Some(MacdSignal::Bullish)
        } else if prev_line >= prev_signal && cur_line < cur_signal {
            Some(MacdSignal::Bearish)
        } else {
            Some(MacdSignal::Neutral)
        }
    }
}

} // verus!
