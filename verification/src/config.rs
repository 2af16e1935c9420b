//! Strategy configuration, as read from the strategy file.

use vstd::prelude::*;

verus! {

/// The value of one strategy parameter.
#[derive(Debug)]
pub enum ParamValue {
    Integer(i64),
    /// A number written with a fraction, as a decimal.
    Decimal(i64),
    Text(String),
    Flag(bool),
    /// Anything else the file can hold: a date, a list, a table.
    Other,
}

impl Clone for ParamValue {
    fn clone(&self) -> (r: Self)
        ensures
            r == *self,
    {
        match self {
            ParamValue::Integer(v) => ParamValue::Integer(*v),
            ParamValue::Decimal(v) => ParamValue::Decimal(*v),
            ParamValue::Text(s) => ParamValue::Text(s.clone()),
            ParamValue::Flag(b) => ParamValue::Flag(*b),
            ParamValue::Other => ParamValue::Other,
        }
    }
}

/// One entry of the strategy file.
#[derive(Debug)]
pub struct StrategyConfig {
    /// The kind of strategy: `rsi` or `macd`.
    pub strategy_type: String,
    /// Name shown in logs.
    pub name: String,
    /// The pair the strategy watches.
    pub pair: String,
    /// Order quantity in units of the base asset.
    pub quantity: i64,
    /// The parameters of the indicator, by key. Where a key occurs twice the
    /// first entry counts.
    pub params: Vec<(String, ParamValue)>,
}

impl Clone for StrategyConfig {
    fn clone(&self) -> (r: Self)
        ensures
            r.strategy_type == self.strategy_type,
            r.name == self.name,
            r.pair == self.pair,
            r.quantity == self.quantity,
            r.params@ == self.params@,
    {
        let mut params: Vec<(String, ParamValue)> = Vec::new();
        let mut i: usize = 0;
        while i < self.params.len()
            invariant
                i <= self.params.len(),
                params@ == self.params@.take(i as int),
            decreases self.params.len() - i,
        {
            params.push((self.params[i].0.clone(), self.params[i].1.clone()));
            assert(self.params@.take(i + 1) =~= self.params@.take(i as int).push(self.params@[i as int]));
            i += 1;
        }
        assert(self.params@.take(self.params.len() as int) =~= self.params@);
        StrategyConfig {
            strategy_type: self.strategy_type.clone(),
            name: self.name.clone(),
            pair: self.pair.clone(),
            quantity: self.quantity,
            params,
        }
    }
}

/// The strategy file: its entries in order.
#[derive(Debug)]
pub struct StrategyFileConfig {
    pub strategies: Vec<StrategyConfig>,
}

/// Whether an entry before the entry `i` watches the same pair.
pub open spec fn mentioned_before(strategies: Seq<StrategyConfig>, i: int) -> bool {
    exists|j: int| 0 <= j < i && (#[trigger] strategies[j]).pair@ == strategies[i].pair@
}

/// The pairs of the first `n` entries, each once, in the order of first
/// mention.
pub open spec fn pairs_of(strategies: Seq<StrategyConfig>, n: nat) -> Seq<Seq<char>>
    decreases n,
{
    if n == 0 {
        Seq::empty()
    } else if mentioned_before(strategies, n - 1) {
        pairs_of(strategies, (n - 1) as nat)
    } else {
        pairs_of(strategies, (n - 1) as nat).push(strategies[n - 1].pair@)
    }
}

/// A pair is among the pairs of the first `n` entries exactly if one of
/// those entries watches it.
pub proof fn lemma_pairs_cover_the_entries(strategies: Seq<StrategyConfig>, n: nat, pair: Seq<char>)
    requires
        n <= strategies.len(),
    ensures
        pairs_of(strategies, n).contains(pair) <==> exists|j: int|
            0 <= j < n && (#[trigger] strategies[j]).pair@ == pair,
    decreases n,
{
    if n > 0 {
        lemma_pairs_cover_the_entries(strategies, (n - 1) as nat, pair);
        let before = pairs_of(strategies, (n - 1) as nat);
        let last = strategies[n - 1].pair@;
        lemma_pairs_cover_the_entries(strategies, (n - 1) as nat, last);
        if pairs_of(strategies, n).contains(pair) {
            let k = choose|k: int| 0 <= k < pairs_of(strategies, n).len() && pairs_of(strategies, n)[k] == pair;
            if mentioned_before(strategies, n - 1) || k < before.len() {
                assert(before[k] == pair);
                assert(before.contains(pair));
            } else {
                assert(strategies[n - 1].pair@ == pair);
            }
        }
        if exists|j: int| 0 <= j < n && (#[trigger] strategies[j]).pair@ == pair {
            let j = choose|j: int| 0 <= j < n && (#[trigger] strategies[j]).pair@ == pair;
            if j < n - 1 {
                assert(before.contains(pair));
                let k = choose|k: int| 0 <= k < before.len() && before[k] == pair;
                assert(pairs_of(strategies, n)[k] == pair);
            } else if mentioned_before(strategies, n - 1) {
                assert(before.contains(pair));
                let k = choose|k: int| 0 <= k < before.len() && before[k] == pair;
                assert(pairs_of(strategies, n)[k] == pair);
            } else {
                assert(pairs_of(strategies, n)[before.len() as int] == pair);
            }
        }
    }
}

/// Whether one of `pairs` is `pair`.
fn holds(pairs: &Vec<String>, pair: &String) -> (found: bool)
    ensures
        found == exists|k: int| 0 <= k < pairs@.len() && (#[trigger] pairs@[k])@ == pair@,
{
    let mut k: usize = 0;
    while k < pairs.len()
        invariant
            k <= pairs@.len(),
            forall|m: int| 0 <= m < k ==> (#[trigger] pairs@[m])@ != pair@,
        decreases pairs.len() - k,
    {
        if pairs[k] == *pair {
            return true;
        }
        k += 1;
    }
    false
}

impl StrategyFileConfig {
    /// The pairs that the strategies watch, each once, in the order of first
    /// mention: the pairs whose market data is streamed.
    pub fn pairs(&self) -> (pairs: Vec<String>)
        ensures
            pairs@.len() == pairs_of(self.strategies@, self.strategies@.len()).len(),
            forall|k: int|
                0 <= k < pairs@.len() ==> (#[trigger] pairs@[k])@ == pairs_of(
                    self.strategies@,
                    self.strategies@.len(),
                )[k],
    {
        let mut pairs: Vec<String> = Vec::new();
        let mut i: usize = 0;
        while i < self.strategies.len()
            invariant
                i <= self.strategies@.len(),
                pairs@.len() == pairs_of(self.strategies@, i as nat).len(),
                forall|k: int|
                    0 <= k < pairs@.len() ==> (#[trigger] pairs@[k])@ == pairs_of(
                        self.strategies@,
                        i as nat,
                    )[k],
            decreases self.strategies.len() - i,
        {
            let pair = &self.strategies[i].pair;
            let seen = holds(&pairs, pair);
            proof {
                let names = pairs_of(self.strategies@, i as nat);
                lemma_pairs_cover_the_entries(self.strategies@, i as nat, pair@);
                if seen {
                    let k = choose|k: int| 0 <= k < pairs@.len() && (#[trigger] pairs@[k])@ == pair@;
                    assert(names[k] == pair@);
                    assert(names.contains(pair@));
                } else if names.contains(pair@) {
                    let k = choose|k: int| 0 <= k < names.len() && names[k] == pair@;
                    assert(pairs@[k]@ == pair@);
                }
                assert(seen == mentioned_before(self.strategies@, i as int));
            }
            if !seen {
                pairs.push(pair.clone());
            }
            i += 1;
        }
        pairs
    }
}

/// The first value under `key`, if there is one.
pub open spec fn param_of(params: Seq<(String, ParamValue)>, key: Seq<char>) -> Option<ParamValue>
    decreases params.len(),
{
    if params.len() == 0 {
        None
    } else if params[0].0@ == key {
        Some(params[0].1)
    } else {
        param_of(params.drop_first(), key)
    }
}

/// The decimal under `key`, or `default` where the key is absent or holds
/// anything but a number written with a fraction.
pub open spec fn decimal_param(params: Seq<(String, ParamValue)>, key: Seq<char>, default: i64) -> i64 {
    match param_of(params, key) {
        Some(ParamValue::Decimal(v)) => v,
        _ => default,
    }
}

/// The count that an integer stands for: itself within the range of
/// `usize`, the nearest end of that range outside it.
pub open spec fn count_of(v: i64) -> usize {
    if v < 0 {
        0
    } else if v > usize::MAX {
        usize::MAX
    } else {
        v as usize
    }
}

/// The count under `key`, or `default` where the key is absent or holds
/// anything but an integer.
pub open spec fn count_param(params: Seq<(String, ParamValue)>, key: Seq<char>, default: usize) -> usize {
    match param_of(params, key) {
        Some(ParamValue::Integer(v)) => count_of(v),
        _ => default,
    }
}

/// The index of the first entry under `key`.
fn find_param(params: &Vec<(String, ParamValue)>, key: &str) -> (found: Option<usize>)
    ensures
        match found {
            Some(i) => i < params@.len() && param_of(params@, key@) == Some(params@[i as int].1),
            None => param_of(params@, key@) is None,
        },
{
    let wanted = key.to_owned();
    let mut i: usize = 0;
    assert(params@.skip(0) =~= params@);
    while i < params.len()
        invariant
            i <= params.len(),
            wanted@ == key@,
            param_of(params@, key@) == param_of(params@.skip(i as int), key@),
        decreases params.len() - i,
    {
        let ghost rest = params@.skip(i as int);
        assert(rest[0] == params@[i as int]);
        if params[i].0 == wanted {
            return Some(i);
        }
        assert(rest.drop_first() =~= params@.skip(i + 1));
        i += 1;
    }
    None
}

/// The decimal under `key`, or `default`.
pub fn param_decimal(params: &Vec<(String, ParamValue)>, key: &str, default: i64) -> (v: i64)
    ensures
        v == decimal_param(params@, key@, default),
{
    match find_param(params, key) {
        Some(i) => match &params[i].1 {
            ParamValue::Decimal(v) => *v,
            _ => default,
        },
        None => default,
    }
}

/// The count under `key`, or `default`.
pub fn param_usize(params: &Vec<(String, ParamValue)>, key: &str, default: usize) -> (v: usize)
    ensures
        v == count_param(params@, key@, default),
{
    match find_param(params, key) {
        Some(i) => match &params[i].1 {
            ParamValue::Integer(v) => {
                let v: i64 = *v;
                if v < 0 {
                    0
                } else if v as u64 > usize::MAX as u64 {
                    usize::MAX
                } else {
                    v as usize
                }
            },
            _ => default,
        },
        None => default,
    }
}

} // verus!
