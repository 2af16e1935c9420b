use clawbot::pieces::split_at;
use clawbot::settings::{parse_port, parse_user_ids};
use clawbot::notation::parse_integer;
use clawbot::{Config, Error, TradingMode};

fn vars(pairs: &[(&str, &str)]) -> Vec<(String, String)> {
    pairs.iter().map(|(k, v)| (k.to_string(), v.to_string())).collect()
}

fn complete() -> Vec<(String, String)> {
    vars(&[
        ("DATABASE_URL", "sqlite://bot.db"),
        ("TRADING_MODE", "Paper"),
        ("BINANCE_API_KEY", "key"),
        ("BINANCE_SECRET", "hush"),
        ("TELEGRAM_TOKEN", "123:abc"),
        ("TELEGRAM_ALLOWED_USER_IDS", "42, 7 ,-5"),
        ("DASHBOARD_TOKEN", "open"),
    ])
}

fn without(key: &str) -> Vec<(String, String)> {
    complete().into_iter().filter(|(k, _)| k != key).collect()
}

fn message(r: Result<Config, Error>) -> String {
    match r {
        Err(Error::Config(message)) => message,
        _ => panic!("expected a configuration error"),
    }
}

#[test]
fn whole_numbers_are_read() {
    assert_eq!(parse_integer("0"), Some(0));
    assert_eq!(parse_integer("42"), Some(42));
    assert_eq!(parse_integer("-42"), Some(-42));
    assert_eq!(parse_integer("+42"), Some(42));
    assert_eq!(parse_integer("007"), Some(7));
    assert_eq!(parse_integer("9223372036854775807"), Some(i64::MAX));
    assert_eq!(parse_integer("9223372036854775808"), None);
    assert_eq!(parse_integer("-9223372036854775808"), Some(i64::MIN));
    assert_eq!(parse_integer("-9223372036854775809"), None);
    assert_eq!(parse_integer("99999999999999999999999999999999999999999999"), None);
    for text in ["", "-", "+", "4 2", " 42", "42 ", "4.2", "0x2a", "forty"] {
        assert_eq!(parse_integer(text), None, "{text:?}");
        assert!(text.parse::<i64>().is_err());
    }
}

#[test]
fn ports_are_read() {
    assert_eq!(parse_port("8080"), Some(8080));
    assert_eq!(parse_port("+80"), Some(80));
    assert_eq!(parse_port("0"), Some(0));
    assert_eq!(parse_port("65535"), Some(65535));
    assert_eq!(parse_port("65536"), None);
    assert_eq!(parse_port("-0"), None);
    assert_eq!(parse_port("-1"), None);
    assert_eq!(parse_port(""), None);
    assert_eq!(parse_port("http"), None);
}

#[test]
fn lists_are_split_at_commas() {
    assert_eq!(split_at("a,b,c", ','), vec!["a", "b", "c"]);
    assert_eq!(split_at("", ','), vec![""]);
    assert_eq!(split_at(",", ','), vec!["", ""]);
    assert_eq!(split_at("a,,b,", ','), vec!["a", "", "b", ""]);
    assert_eq!(split_at(" 1 , 2", ','), vec![" 1 ", " 2"]);
    assert_eq!(split_at("gr\u{fc}n,bl\u{e4}u", ','), vec!["gr\u{fc}n", "bl\u{e4}u"]);
}

#[test]
fn allowed_users_are_read() {
    assert_eq!(parse_user_ids("42").ok().unwrap(), vec![42]);
    assert_eq!(parse_user_ids(" 42 ,7,\t-5\n").ok().unwrap(), vec![42, 7, -5]);
    match parse_user_ids("42, x7 ,y") {
        Err(Error::Config(message)) => {
            assert_eq!(message, "TELEGRAM_ALLOWED_USER_IDS contains non-numeric ID: 'x7'")
        }
        _ => panic!("expected a configuration error"),
    }
    match parse_user_ids("42,") {
        Err(Error::Config(message)) => {
            assert_eq!(message, "TELEGRAM_ALLOWED_USER_IDS contains non-numeric ID: ''")
        }
        _ => panic!("expected a configuration error"),
    }
}

#[test]
fn configuration_with_defaults() {
    let config = Config::from_vars(&complete()).ok().unwrap();
    assert_eq!(config.trading_mode, TradingMode::Paper);
    assert_eq!(config.telegram_allowed_user_ids, vec![42, 7, -5]);
    assert_eq!(config.binance_api_key, "key");
    assert_eq!(config.binance_secret, "hush");
    assert_eq!(config.telegram_token, "123:abc");
    assert_eq!(config.dashboard_token, "open");
    assert_eq!(config.database_url, "sqlite://bot.db");
    assert_eq!(config.dashboard_port, 8080);
    assert_eq!(config.paper_slippage_bps, 1_000_000_000);
    assert_eq!(config.paper_initial_balance, 1_000_000_000_000);
    assert_eq!(config.strategy_config_path, "config/strategies.toml");
}

#[test]
fn configuration_with_everything_set() {
    let mut all = complete();
    all.extend(vars(&[
        ("DASHBOARD_PORT", "9000"),
        ("PAPER_SLIPPAGE_BPS", "2.5"),
        ("PAPER_INITIAL_BALANCE", "500"),
        ("STRATEGY_CONFIG_PATH", "/etc/bot/strategies.toml"),
        ("TRADING_MODE", "live"),
    ]));
    let config = Config::from_vars(&all).ok().unwrap();
    // The first variable of a name counts.
    assert_eq!(config.trading_mode, TradingMode::Paper);
    assert_eq!(config.dashboard_port, 9000);
    assert_eq!(config.paper_slippage_bps, 250_000_000);
    assert_eq!(config.paper_initial_balance, 50_000_000_000);
    assert_eq!(config.strategy_config_path, "/etc/bot/strategies.toml");
}

#[test]
fn unreadable_options_give_way_to_their_defaults() {
    let mut all = complete();
    all.extend(vars(&[("DASHBOARD_PORT", "70000"), ("PAPER_SLIPPAGE_BPS", "ten"), ("PAPER_INITIAL_BALANCE", "")]));
    let config = Config::from_vars(&all).ok().unwrap();
    assert_eq!(config.dashboard_port, 8080);
    assert_eq!(config.paper_slippage_bps, 1_000_000_000);
    assert_eq!(config.paper_initial_balance, 1_000_000_000_000);
}

#[test]
fn missing_variables_are_named_in_the_order_of_reading() {
    for key in [
        "TRADING_MODE",
        "TELEGRAM_ALLOWED_USER_IDS",
        "BINANCE_API_KEY",
        "BINANCE_SECRET",
        "TELEGRAM_TOKEN",
        "DASHBOARD_TOKEN",
        "DATABASE_URL",
    ] {
        assert_eq!(
            message(Config::from_vars(&without(key))),
            format!("Required environment variable '{key}' is not set. Check your .env file.")
        );
    }
    assert_eq!(
        message(Config::from_vars(&Vec::new())),
        "Required environment variable 'TRADING_MODE' is not set. Check your .env file."
    );
    let two: Vec<(String, String)> =
        complete().into_iter().filter(|(k, _)| k != "DATABASE_URL" && k != "BINANCE_SECRET").collect();
    assert_eq!(
        message(Config::from_vars(&two)),
        "Required environment variable 'BINANCE_SECRET' is not set. Check your .env file."
    );
}

#[test]
fn bad_mode_and_bad_users_are_refused() {
    let mut bad_mode = without("TRADING_MODE");
    bad_mode.extend(vars(&[("TRADING_MODE", "Demo")]));
    assert_eq!(
        message(Config::from_vars(&bad_mode)),
        "ERROR: TRADING_MODE must be 'paper' or 'live', got: 'demo'"
    );
    let mut bad_users = without("TELEGRAM_ALLOWED_USER_IDS");
    bad_users.extend(vars(&[("TELEGRAM_ALLOWED_USER_IDS", "1, two")]));
    assert_eq!(
        message(Config::from_vars(&bad_users)),
        "TELEGRAM_ALLOWED_USER_IDS contains non-numeric ID: 'two'"
    );
}
