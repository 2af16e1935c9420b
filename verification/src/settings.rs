//! The configuration of the program, from the variables of its environment.

use vstd::prelude::*;
use vstd::string::{StrSliceExecFns, StringExecFns};
use crate::pieces::{pieces_of, split_at};
use crate::error::Error;
use crate::notation::{decimal_of, integer_of, parse_decimal, parse_integer};
use crate::stream::lowercase_of;
use crate::types::TradingMode;

verus! {

/// The port of the dashboard unless the environment names one.
pub const DEFAULT_DASHBOARD_PORT: u16 = 8080;

/// The slippage of simulated fills unless the environment names one: ten
/// basis points.
pub const DEFAULT_SLIPPAGE_BPS: i64 = 1_000_000_000;

/// The starting balance of the simulation unless the environment names one:
/// ten thousand.
pub const DEFAULT_INITIAL_BALANCE: i64 = 1_000_000_000_000;

/// All configuration of the program.
#[derive(Debug)]
pub struct Config {
    pub binance_api_key: String,
    pub binance_secret: String,
    pub telegram_token: String,
    pub telegram_allowed_user_ids: Vec<i64>,
    pub dashboard_token: String,
    pub dashboard_port: u16,
    pub trading_mode: TradingMode,
    /// Slippage of simulated fills in basis points, as a decimal.
    pub paper_slippage_bps: i64,
    /// Starting balance of the simulation, as a decimal.
    pub paper_initial_balance: i64,
    pub database_url: String,
    pub strategy_config_path: String,
}

/// The value of the first variable named `key`, if there is one.
pub open spec fn var_of(vars: Seq<(String, String)>, key: Seq<char>) -> Option<Seq<char>>
    decreases vars.len(),
{
    if vars.len() == 0 {
        None
    } else if vars[0].0@ == key {
        Some(vars[0].1@)
    } else {
        var_of(vars.drop_first(), key)
    }
}

/// A text without the white space around it: the name for the result of
/// `str::trim`.
pub uninterp spec fn trimmed_of(s: Seq<char>) -> Seq<char>;

/// `text` without the white space around it, by `str::trim` of the standard
/// library. Trusted: the result depends on the text alone.
#[verifier::external_body]
fn trimmed(text: &str) -> (inner: String)
    ensures
        inner@ == trimmed_of(text@),
{
    text.trim().to_owned()
}

/// The message of the error for a piece that is no whole number.
pub open spec fn bad_id(piece: Seq<char>) -> Seq<char> {
    "TELEGRAM_ALLOWED_USER_IDS contains non-numeric ID: '"@ + piece + "'"@
}

/// The whole numbers that the first `n` pieces denote once trimmed, or the
/// message for the first piece that denotes none.
pub open spec fn ids_of(pieces: Seq<Seq<char>>, n: nat) -> Result<Seq<i64>, Seq<char>>
    decreases n,
{
    if n == 0 {
        Ok(Seq::empty())
    } else {
        match ids_of(pieces, (n - 1) as nat) {
            Err(message) => Err(message),
            Ok(ids) => match integer_of(trimmed_of(pieces[n - 1])) {
                Some(id) => Ok(ids.push(id)),
                None => Err(bad_id(trimmed_of(pieces[n - 1]))),
            },
        }
    }
}

/// The users that a list of numbers separated by commas allows.
pub open spec fn user_ids_of(text: Seq<char>) -> Result<Seq<i64>, Seq<char>> {
    ids_of(pieces_of(text, ','), pieces_of(text, ',').len())
}

/// The users that `text` allows: its pieces between commas, each trimmed and
/// read as a whole number. Fails on the first piece that is no whole number.
pub fn parse_user_ids(text: &str) -> (r: Result<Vec<i64>, Error>)
    ensures
        match user_ids_of(text@) {
            Ok(ids) => r matches Ok(read) && read@ == ids,
            Err(message) => r matches Err(Error::Config(m)) && m@ == message,
        },
{
    let pieces = split_at(text, ',');
    let ghost all = pieces_of(text@, ',');
    let mut ids: Vec<i64> = Vec::new();
    let mut k: usize = 0;
    while k < pieces.len()
        invariant
            all == pieces_of(text@, ','),
            k <= pieces@.len() == all.len(),
            forall|j: int| 0 <= j < pieces@.len() ==> (#[trigger] pieces@[j])@ == all[j],
            ids_of(all, k as nat) == Ok::<Seq<i64>, Seq<char>>(ids@),
        decreases pieces.len() - k,
    {
        let inner = trimmed(pieces[k].as_str());
        match parse_integer(inner.as_str()) {
            Some(id) => {
                ids.push(id);
            },
            None => {
                let message = "TELEGRAM_ALLOWED_USER_IDS contains non-numeric ID: '".to_owned().concat(
                    inner.as_str(),
                ).concat("'");
                proof {
                    assert(pieces@[k as int]@ == all[k as int]);
                    assert(ids_of(all, (k + 1) as nat) == Err::<Seq<i64>, Seq<char>>(
                        bad_id(trimmed_of(all[k as int])),
                    ));
                    lemma_first_failure_stays(all, (k + 1) as nat, all.len());
                }
                return Err(Error::Config(message));
            },
        }
        k += 1;
    }
    Ok(ids)
}

/// Once a piece has failed, the failure stands whatever follows.
proof fn lemma_first_failure_stays(pieces: Seq<Seq<char>>, n: nat, m: nat)
    requires
        n <= m,
        ids_of(pieces, n) is Err,
    ensures
        ids_of(pieces, m) == ids_of(pieces, n),
    decreases m - n,
{
    if n < m {
        lemma_first_failure_stays(pieces, n, (m - 1) as nat);
    }
}

/// The message of the error for a required variable that is not set.
pub open spec fn missing(key: Seq<char>) -> Seq<char> {
    "Required environment variable '"@ + key + "' is not set. Check your .env file."@
}

/// The message of the error for a trading mode that is none.
pub open spec fn bad_mode(named: Seq<char>) -> Seq<char> {
    "ERROR: TRADING_MODE must be 'paper' or 'live', got: '"@ + lowercase_of(named) + "'"@
}

/// The port that `text` names: a whole number without a minus sign that a
/// `u16` holds.
pub open spec fn port_of(text: Seq<char>) -> Option<u16> {
    match integer_of(text) {
        Some(port) if 0 <= port <= u16::MAX && text[0] != '-' => Some(port as u16),
        _ => None,
    }
}

/// The first of the required variables, in the order in which they are
/// read, that is not set.
pub open spec fn first_missing(vars: Seq<(String, String)>, keys: Seq<Seq<char>>) -> Option<Seq<char>>
    decreases keys.len(),
{
    if keys.len() == 0 {
        None
    } else if var_of(vars, keys[0]) is None {
        Some(keys[0])
    } else {
        first_missing(vars, keys.drop_first())
    }
}

/// The variables that must be set beside the trading mode and the allowed
/// users, in the order in which they are read.
pub open spec fn required_keys() -> Seq<Seq<char>> {
    seq![
        "BINANCE_API_KEY"@,
        "BINANCE_SECRET"@,
        "TELEGRAM_TOKEN"@,
        "DASHBOARD_TOKEN"@,
        "DATABASE_URL"@,
    ]
}

/// Why the variables give no configuration, if they give none: the first
/// cause in the order in which the variables are read.
pub open spec fn load_error(vars: Seq<(String, String)>) -> Option<Seq<char>> {
    match var_of(vars, "TRADING_MODE"@) {
        None => Some(missing("TRADING_MODE"@)),
        Some(named) => if TradingMode::named_by(named) is None {
            Some(bad_mode(named))
        } else {
            match var_of(vars, "TELEGRAM_ALLOWED_USER_IDS"@) {
                None => Some(missing("TELEGRAM_ALLOWED_USER_IDS"@)),
                Some(listed) => match user_ids_of(listed) {
                    Err(message) => Some(message),
                    Ok(_) => match first_missing(vars, required_keys()) {
                        Some(key) => Some(missing(key)),
                        None => None,
                    },
                },
            }
        },
    }
}

/// `config` is what the variables say, with the defaults for what they leave
/// open: port 8080, ten basis points of slippage, a starting balance of ten
/// thousand, and the strategy file under `config/strategies.toml`. A port,
/// slippage or balance that cannot be read gives way to its default.
pub open spec fn loaded_from(config: Config, vars: Seq<(String, String)>) -> bool {
    &&& Some(config.trading_mode) == TradingMode::named_by(var_of(vars, "TRADING_MODE"@)->0)
    &&& Ok::<Seq<i64>, Seq<char>>(config.telegram_allowed_user_ids@) == user_ids_of(
        var_of(vars, "TELEGRAM_ALLOWED_USER_IDS"@)->0,
    )
    &&& Some(config.binance_api_key@) == var_of(vars, "BINANCE_API_KEY"@)
    &&& Some(config.binance_secret@) == var_of(vars, "BINANCE_SECRET"@)
    &&& Some(config.telegram_token@) == var_of(vars, "TELEGRAM_TOKEN"@)
    &&& Some(config.dashboard_token@) == var_of(vars, "DASHBOARD_TOKEN"@)
    &&& Some(config.database_url@) == var_of(vars, "DATABASE_URL"@)
    &&& config.dashboard_port == match var_of(vars, "DASHBOARD_PORT"@) {
        Some(text) if port_of(text) is Some => port_of(text)->0,
        _ => DEFAULT_DASHBOARD_PORT,
    }
    &&& config.paper_slippage_bps == match var_of(vars, "PAPER_SLIPPAGE_BPS"@) {
        Some(text) if decimal_of(text) is Some => decimal_of(text)->0,
        _ => DEFAULT_SLIPPAGE_BPS,
    }
    &&& config.paper_initial_balance == match var_of(vars, "PAPER_INITIAL_BALANCE"@) {
        Some(text) if decimal_of(text) is Some => decimal_of(text)->0,
        _ => DEFAULT_INITIAL_BALANCE,
    }
    &&& config.strategy_config_path@ == match var_of(vars, "STRATEGY_CONFIG_PATH"@) {
        Some(path) => path,
        None => "config/strategies.toml"@,
    }
}

/// The value of the first variable named `key`.
fn lookup(vars: &Vec<(String, String)>, key: &str) -> (value: Option<String>)
    ensures
        match value {
            Some(v) => var_of(vars@, key@) == Some(v@),
            None => var_of(vars@, key@) is None,
        },
{
    let wanted = key.to_owned();
    let mut i: usize = 0;
    assert(vars@.skip(0) =~= vars@);
    while i < vars.len()
        invariant
            i <= vars.len(),
            wanted@ == key@,
            var_of(vars@, key@) == var_of(vars@.skip(i as int), key@),
        decreases vars.len() - i,
    {
        let ghost rest = vars@.skip(i as int);
        assert(rest[0] == vars@[i as int]);
        if vars[i].0 == wanted {
            return Some(vars[i].1.clone());
        }
        assert(rest.drop_first() =~= vars@.skip(i + 1));
        i += 1;
    }
    None
}

/// The value of a variable that must be set.
fn required(vars: &Vec<(String, String)>, key: &str) -> (r: Result<String, Error>)
    ensures
        match r {
            Ok(v) => var_of(vars@, key@) == Some(v@),
            Err(e) => {
                &&& var_of(vars@, key@) is None
                &&& e matches Error::Config(m)
                &&& m@ == missing(key@)
            },
        },
{
    match lookup(vars, key) {
        Some(v) => Ok(v),
        None => Err(
            Error::Config(
                "Required environment variable '".to_owned().concat(key).concat(
                    "' is not set. Check your .env file.",
                ),
            ),
        ),
    }
}

/// The port that `text` names, if it names one.
pub fn parse_port(text: &str) -> (port: Option<u16>)
    ensures
        port == port_of(text@),
{
    match parse_integer(text) {
        Some(value) => {
            if value < 0 || value > 65535 {
                None
            } else if text.get_char(0) == '-' {
                None
            } else {
                Some(value as u16)
            }
        },
        None => None,
    }
}

impl Config {
    /// The configuration that the variables of the environment give, or the
    /// first cause why they give none.
    pub fn from_vars(vars: &Vec<(String, String)>) -> (r: Result<Config, Error>)
        ensures
            match load_error(vars@) {
                Some(message) => r matches Err(Error::Config(m)) && m@ == message,
                None => r matches Ok(config) && loaded_from(config, vars@),
            },
    {
        let named = match required(vars, "TRADING_MODE") {
            Ok(v) => v,
            Err(e) => {
                return Err(e);
            },
        };
        let trading_mode = match TradingMode::parse(named.as_str()) {
            Some(mode) => mode,
            None => {
                let lower = crate::stream::lowercase(named.as_str());
                return Err(
                    Error::Config(
                        "ERROR: TRADING_MODE must be 'paper' or 'live', got: '".to_owned().concat(
                            lower.as_str(),
                        ).concat("'"),
                    ),
                );
            },
        };
        let listed = match required(vars, "TELEGRAM_ALLOWED_USER_IDS") {
            Ok(v) => v,
            Err(e) => {
                return Err(e);
            },
        };
        let telegram_allowed_user_ids = match parse_user_ids(listed.as_str()) {
            Ok(ids) => ids,
            Err(e) => {
                return Err(e);
            },
        };
        proof {
            reveal_with_fuel(first_missing, 6);
            let keys = required_keys();
            assert(keys.drop_first() =~= seq![
                "BINANCE_SECRET"@,
                "TELEGRAM_TOKEN"@,
                "DASHBOARD_TOKEN"@,
                "DATABASE_URL"@,
            ]);
            assert(keys.drop_first().drop_first() =~= seq![
                "TELEGRAM_TOKEN"@,
                "DASHBOARD_TOKEN"@,
                "DATABASE_URL"@,
            ]);
            assert(keys.drop_first().drop_first().drop_first() =~= seq![
                "DASHBOARD_TOKEN"@,
                "DATABASE_URL"@,
            ]);
            assert(keys.drop_first().drop_first().drop_first().drop_first() =~= seq!["DATABASE_URL"@]);
            assert(keys.drop_first().drop_first().drop_first().drop_first().drop_first()
                =~= Seq::<Seq<char>>::empty());
        }
        let binance_api_key = match required(vars, "BINANCE_API_KEY") {
            Ok(v) => v,
            Err(e) => {
                return Err(e);
            },
        };
        let binance_secret = match required(vars, "BINANCE_SECRET") {
            Ok(v) => v,
            Err(e) => {
                return Err(e);
            },
        };
        let telegram_token = match required(vars, "TELEGRAM_TOKEN") {
            Ok(v) => v,
            Err(e) => {
                return Err(e);
            },
        };
        let dashboard_token = match required(vars, "DASHBOARD_TOKEN") {
            Ok(v) => v,
            Err(e) => {
                return Err(e);
            },
        };
        let database_url = match required(vars, "DATABASE_URL") {
            Ok(v) => v,
            Err(e) => {
                return Err(e);
            },
        };
        let dashboard_port: u16 = match lookup(vars, "DASHBOARD_PORT") {
            Some(text) => match parse_port(text.as_str()) {
                Some(port) => port,
                None => DEFAULT_DASHBOARD_PORT,
            },
            None => DEFAULT_DASHBOARD_PORT,
        };
        let paper_slippage_bps: i64 = match lookup(vars, "PAPER_SLIPPAGE_BPS") {
            Some(text) => match parse_decimal(text.as_str()) {
                Some(bps) => bps,
                None => DEFAULT_SLIPPAGE_BPS,
            },
            None => DEFAULT_SLIPPAGE_BPS,
        };
        let paper_initial_balance: i64 = match lookup(vars, "PAPER_INITIAL_BALANCE") {
            Some(text) => match parse_decimal(text.as_str()) {
                Some(balance) => balance,
                None => DEFAULT_INITIAL_BALANCE,
            },
            None => DEFAULT_INITIAL_BALANCE,
        };
        let strategy_config_path = match lookup(vars, "STRATEGY_CONFIG_PATH") {
            Some(path) => path,
            None => "config/strategies.toml".to_owned(),
        };
        Ok(
            Config {
                binance_api_key,
                binance_secret,
                telegram_token,
                telegram_allowed_user_ids,
                dashboard_token,
                dashboard_port,
                trading_mode,
                paper_slippage_bps,
                paper_initial_balance,
                database_url,
                strategy_config_path,
            },
        )
    }
}

} // verus!
