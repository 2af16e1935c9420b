//! What the read-only dashboard computes: who may read, which page of the
//! trade history is asked for, and how the closed trades performed.

use vstd::prelude::*;
use vstd::string::{StrSliceExecFns, StringExecFns};
use crate::decimal::{floor_div, saturate, saturating, scaled_div, SCALE};
use crate::pieces::{pieces_of, split_at};

verus! {

/// Trades on a page where the request names no size.
pub const DEFAULT_PAGE_SIZE: i64 = 50;

/// The most trades on a page.
pub const MAX_PAGE_SIZE: i64 = 200;

/// The equity from which the performance of the trade history is reckoned.
pub const STARTING_EQUITY: i64 = 1_000_000_000_000;

/// The value of the `Authorization` header that carries `token`.
pub open spec fn bearer(token: Seq<char>) -> Seq<char> {
    "Bearer "@ + token
}

/// Whether a request may read the dashboard: it must carry the dashboard's
/// token as a bearer token.
pub fn is_authorized(header: Option<&str>, token: &str) -> (ok: bool)
    ensures
        ok == (header matches Some(h) && h@ == bearer(token@)),
{
    match header {
        Some(h) => h.to_owned() == "Bearer ".to_owned().concat(token),
        None => false,
    }
}

/// Whether a client may follow the log: its query must carry the dashboard's
/// token.
pub fn is_token(given: Option<&str>, token: &str) -> (ok: bool)
    ensures
        ok == (given matches Some(t) && t@ == token@),
{
    match given {
        Some(t) => t.to_owned() == token.to_owned(),
        None => false,
    }
}

/// `path` without the slashes it begins with.
pub open spec fn without_leading_slashes(path: Seq<char>) -> Seq<char>
    decreases path.len(),
{
    if path.len() > 0 && path[0] == '/' {
        without_leading_slashes(path.drop_first())
    } else {
        path
    }
}

/// The asset that a request path names: the path without its leading
/// slashes, and the index page for the root.
pub open spec fn asset_of(path: Seq<char>) -> Seq<char> {
    if without_leading_slashes(path).len() == 0 {
        "index.html"@
    } else {
        without_leading_slashes(path)
    }
}

proof fn lemma_slashes_skipped(path: Seq<char>, i: int)
    requires
        0 <= i <= path.len(),
        forall|j: int| 0 <= j < i ==> path[j] == '/',
    ensures
        without_leading_slashes(path) == without_leading_slashes(path.skip(i)),
    decreases i,
{
    if i == 0 {
        assert(path.skip(0) =~= path);
    } else {
        let rest = path.drop_first();
        assert forall|j: int| 0 <= j < i - 1 implies rest[j] == '/' by {
            assert(rest[j] == path[j + 1]);
        }
        lemma_slashes_skipped(rest, i - 1);
        assert(rest.skip(i - 1) =~= path.skip(i));
    }
}

/// The asset that a request path names.
pub fn asset_path(path: &str) -> (asset: String)
    ensures
        asset@ == asset_of(path@),
{
    let n = path.unicode_len();
    let mut i: usize = 0;
    let mut done = false;
    while i < n && !done
        invariant
            i <= n == path@.len(),
            forall|j: int| 0 <= j < i ==> path@[j] == '/',
            done ==> i < n && path@[i as int] != '/',
        decreases n - i + if done {
            0int
        } else {
            1int
        },
    {
        if path.get_char(i) == '/' {
            i += 1;
        } else {
            done = true;
        }
    }
    proof {
        lemma_slashes_skipped(path@, i as int);
        assert(path@.skip(i as int) =~= path@.subrange(i as int, n as int));
    }
    if i == n {
        "index.html".to_owned()
    } else {
        path.substring_char(i, n).to_owned()
    }
}

/// Whether an asset lies inside the folder of the front end: no step of its
/// path leads to the folder above.
pub open spec fn stays_inside(asset: Seq<char>) -> bool {
    forall|k: int| 0 <= k < pieces_of(asset, '/').len() ==> #[trigger] pieces_of(asset, '/')[k] != ".."@
}

/// Whether an asset lies inside the folder of the front end. One that does
/// not is not served.
pub fn is_inside(asset: &str) -> (ok: bool)
    ensures
        ok == stays_inside(asset@),
{
    let steps = split_at(asset, '/');
    let up = "..".to_owned();
    let mut k: usize = 0;
    while k < steps.len()
        invariant
            k <= steps@.len() == pieces_of(asset@, '/').len(),
            up@ == ".."@,
            forall|j: int| 0 <= j < steps@.len() ==> (#[trigger] steps@[j])@ == pieces_of(asset@, '/')[j],
            forall|j: int| 0 <= j < k ==> #[trigger] pieces_of(asset@, '/')[j] != ".."@,
        decreases steps.len() - k,
    {
        if steps[k] == up {
            assert(pieces_of(asset@, '/')[k as int] == ".."@);
            return false;
        }
        k += 1;
    }
    true
}

/// A page of the trade history.
#[derive(Debug, Clone, Copy, PartialEq, Eq, Structural)]
pub struct Page {
    /// The page, counted from one.
    pub page: i64,
    /// Trades on a page.
    pub limit: i64,
    /// Trades before the page.
    pub offset: i64,
}

/// The page that a request asks for: the first page unless it names a later
/// one, fifty trades unless it names a size, and never more than two hundred.
pub open spec fn page_of(page: Option<i64>, limit: Option<i64>) -> Page {
    let page = match page {
        Some(p) if p > 1 => p,
        _ => 1,
    };
    let limit = match limit {
        Some(l) => if l < MAX_PAGE_SIZE {
            l
        } else {
            MAX_PAGE_SIZE
        },
        None => DEFAULT_PAGE_SIZE,
    };
    Page { page, limit, offset: saturate((page - 1) * limit) }
}

/// The page that a request asks for.
pub fn page_window(page: Option<i64>, limit: Option<i64>) -> (window: Page)
    ensures
        window == page_of(page, limit),
{
    let page: i64 = match page {
        Some(p) => if p > 1 {
            p
        } else {
            1
        },
        None => 1,
    };
    let limit: i64 = match limit {
        Some(l) => if l < MAX_PAGE_SIZE {
            l
        } else {
            MAX_PAGE_SIZE
        },
        None => DEFAULT_PAGE_SIZE,
    };
    let before: i128 = page as i128 - 1;
    assert(-0x7fff_ffff_ffff_ffff_0000_0000_0000_0000 <= before * limit <= 0x7fff_ffff_ffff_ffff_0000_0000_0000_0000)
        by (nonlinear_arith)
        requires
            0 <= before <= 0x7fff_ffff_ffff_ffff,
            -0x8000_0000_0000_0000 <= limit <= 200,
    ;
    Page { page, limit, offset: saturating(before * (limit as i128)) }
}

/// The equity after the first `n` trades.
pub open spec fn equity_after(pnls: Seq<i64>, n: nat) -> i64
    decreases n,
{
    if n == 0 {
        STARTING_EQUITY
    } else {
        saturate(equity_after(pnls, (n - 1) as nat) + pnls[n - 1])
    }
}

/// The highest equity up to the first `n` trades.
pub open spec fn peak_after(pnls: Seq<i64>, n: nat) -> i64
    decreases n,
{
    if n == 0 {
        STARTING_EQUITY
    } else if equity_after(pnls, n) > peak_after(pnls, (n - 1) as nat) {
        equity_after(pnls, n)
    } else {
        peak_after(pnls, (n - 1) as nat)
    }
}

/// The fall from the peak after the first `n` trades, as a fraction of the
/// peak.
pub open spec fn drawdown_at(pnls: Seq<i64>, n: nat) -> i64 {
    saturate(scaled_div(peak_after(pnls, n) - equity_after(pnls, n), peak_after(pnls, n) as int))
}

/// The deepest fall from the peak over the first `n` trades.
pub open spec fn max_drawdown(pnls: Seq<i64>, n: nat) -> i64
    decreases n,
{
    if n == 0 {
        0
    } else if drawdown_at(pnls, n) > max_drawdown(pnls, (n - 1) as nat) {
        drawdown_at(pnls, n)
    } else {
        max_drawdown(pnls, (n - 1) as nat)
    }
}

/// The trades among the first `n` that made a profit.
pub open spec fn wins(pnls: Seq<i64>, n: nat) -> nat
    decreases n,
{
    if n == 0 {
        0
    } else if pnls[n - 1] > 0 {
        wins(pnls, (n - 1) as nat) + 1
    } else {
        wins(pnls, (n - 1) as nat)
    }
}

/// The sum of the profits of the first `n` trades.
pub open spec fn total_pnl(pnls: Seq<i64>, n: nat) -> i64
    decreases n,
{
    if n == 0 {
        0
    } else {
        saturate(total_pnl(pnls, (n - 1) as nat) + pnls[n - 1])
    }
}

/// The share of trades that made a profit; zero without a trade.
pub open spec fn win_rate(pnls: Seq<i64>) -> int {
    if pnls.len() == 0 {
        0
    } else {
        (wins(pnls, pnls.len()) * SCALE) / (pnls.len() as int)
    }
}

/// How the closed trades performed.
#[derive(Debug)]
pub struct Performance {
    /// The equity after each trade, in order.
    pub equity_curve: Vec<i64>,
    /// The share of trades that made a profit, as a decimal.
    pub win_rate: i64,
    pub total_pnl_usd: i64,
    pub trade_count: usize,
    /// The deepest fall from the peak, as a fraction of the peak.
    pub max_drawdown_pct: i64,
}

proof fn lemma_wins_bounded(pnls: Seq<i64>, n: nat)
    ensures
        wins(pnls, n) <= n,
    decreases n,
{
    if n > 0 {
        lemma_wins_bounded(pnls, (n - 1) as nat);
    }
}

/// The peak is never below the starting equity nor below the equity.
pub proof fn lemma_peak_bounds(pnls: Seq<i64>, n: nat)
    ensures
        peak_after(pnls, n) >= STARTING_EQUITY,
        peak_after(pnls, n) >= equity_after(pnls, n),
        n > 0 ==> peak_after(pnls, n) >= peak_after(pnls, (n - 1) as nat),
    decreases n,
{
    if n > 0 {
        lemma_peak_bounds(pnls, (n - 1) as nat);
    }
}

/// The win rate is a share: between nothing and the whole.
pub proof fn lemma_win_rate_is_a_share(pnls: Seq<i64>)
    ensures
        0 <= win_rate(pnls) <= SCALE,
{
    if pnls.len() > 0 {
        let n = pnls.len() as int;
        lemma_wins_bounded(pnls, pnls.len());
        let w = wins(pnls, pnls.len()) as int;
        assert(0 <= w * SCALE <= n * SCALE) by (nonlinear_arith)
            requires
                0 <= w <= n,
        ;
        vstd::arithmetic::div_mod::lemma_div_pos_is_pos(w * SCALE, n);
        vstd::arithmetic::div_mod::lemma_div_is_ordered(w * SCALE, n * SCALE, n);
        vstd::arithmetic::div_mod::lemma_div_multiples_vanish(SCALE as int, n);
    }
}

/// The performance of the closed trades with the given profits, oldest
/// first: the equity after each trade from the starting equity, the share of
/// winning trades, the sum of the profits, the number of trades, and the
/// deepest fall of the equity from its peak.
pub fn performance(pnls: &[i64]) -> (p: Performance)
    ensures
        p.trade_count == pnls@.len(),
        p.equity_curve@.len() == pnls@.len(),
        forall|i: int| 0 <= i < pnls@.len() ==> p.equity_curve@[i] == equity_after(pnls@, (i + 1) as nat),
        p.win_rate == win_rate(pnls@),
        p.total_pnl_usd == total_pnl(pnls@, pnls@.len()),
        p.max_drawdown_pct == max_drawdown(pnls@, pnls@.len()),
{
    let n = pnls.len();
    let mut curve: Vec<i64> = Vec::new();
    let mut equity: i64 = STARTING_EQUITY;
    let mut peak: i64 = STARTING_EQUITY;
    let mut deepest: i64 = 0;
    let mut won: usize = 0;
    let mut total: i64 = 0;
    let mut i: usize = 0;
    while i < n
        invariant
            i <= n == pnls@.len(),
            curve@.len() == i,
            forall|k: int| 0 <= k < i ==> curve@[k] == equity_after(pnls@, (k + 1) as nat),
            equity == equity_after(pnls@, i as nat),
            peak == peak_after(pnls@, i as nat),
            deepest == max_drawdown(pnls@, i as nat),
            won == wins(pnls@, i as nat),
            total == total_pnl(pnls@, i as nat),
        decreases n - i,
    {
        let pnl = pnls[i];
        proof {
            lemma_wins_bounded(pnls@, i as nat);
            lemma_peak_bounds(pnls@, (i + 1) as nat);
        }
        equity = saturating(equity as i128 + pnl as i128);
        if equity > peak {
            peak = equity;
        }
        let fall: i128 = peak as i128 - equity as i128;
        assert(0 <= fall * 100_000_000 <= 0x1_0000_0000_0000_0000 * 100_000_000);
        let down = saturating(floor_div(fall * (SCALE as i128), peak as i128));
        if down > deepest {
            deepest = down;
        }
        if pnl > 0 {
            won += 1;
        }
        total = saturating(total as i128 + pnl as i128);
        curve.push(equity);
        i += 1;
    }
    let rate: i64 = if n == 0 {
        0
    } else {
        proof {
            lemma_wins_bounded(pnls@, n as nat);
            lemma_win_rate_is_a_share(pnls@);
        }
        assert(won * 100_000_000 <= 0xffff_ffff_ffff_ffff * 100_000_000);
        ((won as u128 * (SCALE as u128)) / (n as u128)) as i64
    };
    Performance {
        equity_curve: curve,
        win_rate: rate,
        total_pnl_usd: total,
        trade_count: n,
        max_drawdown_pct: deepest,
    }
}

} // verus!
