use clawbot::config::{param_decimal, param_usize};
use clawbot::registry::build_strategy;
use clawbot::{
    AnyStrategy, EngineState, Error, MarketEvent, OrderSide, ParamValue, Signal, Strategy,
    StrategyConfig, StrategyFileConfig, StrategyRegistry,
};

fn dec(x: f64) -> i64 {
    (x * 100_000_000.0).round() as i64
}

fn entry(kind: &str, pair: &str, params: Vec<(String, ParamValue)>) -> StrategyConfig {
    StrategyConfig {
        strategy_type: kind.to_string(),
        name: format!("{pair} {kind}"),
        pair: pair.to_string(),
        quantity: dec(0.001),
        params,
    }
}

fn event(pair: &str, price: f64, closed: bool) -> MarketEvent {
    MarketEvent {
        pair: pair.to_string(),
        price: dec(price),
        open: dec(price),
        high: dec(price),
        low: dec(price),
        volume: dec(1.0),
        is_candle_closed: closed,
        timestamp: 0,
    }
}

fn rsi3(pair: &str) -> StrategyConfig {
    entry("rsi", pair, vec![("period".to_string(), ParamValue::Integer(3))])
}

#[test]
fn parameters_fall_back_to_their_defaults() {
    let params = vec![
        ("period".to_string(), ParamValue::Integer(7)),
        ("overbought".to_string(), ParamValue::Decimal(dec(80.0))),
        ("oversold".to_string(), ParamValue::Integer(20)),
        ("period".to_string(), ParamValue::Integer(9)),
        ("label".to_string(), ParamValue::Text("x".to_string())),
        ("negative".to_string(), ParamValue::Integer(-4)),
    ];
    assert_eq!(param_usize(&params, "period", 14), 7);
    assert_eq!(param_usize(&params, "slow", 26), 26);
    assert_eq!(param_usize(&params, "overbought", 5), 5);
    assert_eq!(param_usize(&params, "negative", 5), 0);
    assert_eq!(param_decimal(&params, "overbought", dec(70.0)), dec(80.0));
    // A whole number is no decimal: the default stands.
    assert_eq!(param_decimal(&params, "oversold", dec(30.0)), dec(30.0));
    assert_eq!(param_decimal(&params, "missing", dec(30.0)), dec(30.0));
    assert_eq!(param_decimal(&params, "label", 1), 1);
}

#[test]
fn known_kinds_are_built_with_defaults() {
    match build_strategy(&entry("rsi", "BTCUSDT", Vec::new())).unwrap() {
        AnyStrategy::Rsi(s) => {
            assert_eq!(s.indicator.period, 14);
            assert_eq!(s.indicator.overbought, dec(70.0));
            assert_eq!(s.indicator.oversold, dec(30.0));
            assert_eq!(s.cfg.pair, "BTCUSDT");
            assert_eq!(s.cfg.quantity, dec(0.001));
            assert_eq!(s.name(), "BTCUSDT rsi");
            assert_eq!(s.pair(), "BTCUSDT");
        }
        AnyStrategy::Macd(_) => panic!("expected the index"),
    }
    match build_strategy(&entry("macd", "ETHUSDT", Vec::new())).unwrap() {
        AnyStrategy::Macd(s) => {
            assert_eq!((s.indicator.fast, s.indicator.slow, s.indicator.signal), (12, 26, 9));
            assert_eq!(s.pair(), "ETHUSDT");
        }
        AnyStrategy::Rsi(_) => panic!("expected the crossover"),
    }
}

#[test]
fn unknown_kinds_and_bad_periods_are_refused() {
    let unknown = build_strategy(&entry("bollinger", "BTCUSDT", Vec::new()));
    assert_eq!(unknown.err().unwrap(), "unknown type 'bollinger'");
    let short = build_strategy(&entry(
        "rsi",
        "BTCUSDT",
        vec![("period".to_string(), ParamValue::Integer(1))],
    ));
    assert_eq!(short.err().unwrap(), "RSI period must be >= 2");
    let crossed = build_strategy(&entry(
        "macd",
        "BTCUSDT",
        vec![("fast".to_string(), ParamValue::Integer(26))],
    ));
    assert_eq!(crossed.err().unwrap(), "MACD fast period must be less than slow period");
}

#[test]
fn registry_fails_on_the_first_bad_entry() {
    let file = StrategyFileConfig {
        strategies: vec![rsi3("BTCUSDT"), entry("magic", "ETHUSDT", Vec::new()), entry("other", "X", Vec::new())],
    };
    match StrategyRegistry::from_config(&file) {
        Err(Error::Config(message)) => {
            assert_eq!(message, "Unknown strategy type 'magic': unknown type 'magic'")
        }
        _ => panic!("expected a configuration error"),
    }
    let good = StrategyFileConfig { strategies: vec![rsi3("BTCUSDT"), entry("macd", "ETHUSDT", Vec::new())] };
    let registry = StrategyRegistry::from_config(&good).ok().unwrap();
    assert_eq!(registry.strategies.len(), 2);
    assert_eq!(registry.max_history, 200);
    assert!(registry.price_history.is_empty());
}

#[test]
fn signals_come_from_the_history_of_the_pair() {
    let file = StrategyFileConfig { strategies: vec![rsi3("BTCUSDT"), rsi3("ETHUSDT"), rsi3("BTCUSDT")] };
    let mut registry = StrategyRegistry::from_config(&file).ok().unwrap();
    // Three falling closes: not yet more closes than the period.
    for price in [14.0, 13.0, 12.0] {
        assert!(registry.process(&event("BTCUSDT", price, true)).is_empty());
    }
    // The fourth gives an index of zero: both strategies on the pair buy.
    let signals = registry.process(&event("BTCUSDT", 11.0, true));
    assert_eq!(signals.len(), 2);
    for signal in &signals {
        assert_eq!(signal.pair(), "BTCUSDT");
        assert_eq!(signal.side(), OrderSide::Buy);
        assert_eq!(signal.quantity(), dec(0.001));
    }
    assert_eq!(registry.price_history.get("BTCUSDT").unwrap(), &vec![dec(14.0), dec(13.0), dec(12.0), dec(11.0)]);
    assert!(registry.price_history.get("ETHUSDT").is_none());
    // An update within a candle changes nothing and asks nobody.
    assert!(registry.process(&event("BTCUSDT", 1.0, false)).is_empty());
    assert_eq!(registry.price_history.get("BTCUSDT").unwrap().len(), 4);
    // A rising series on the other pair sells there.
    for price in [1.0, 2.0, 3.0] {
        assert!(registry.process(&event("ETHUSDT", price, true)).is_empty());
    }
    let signals = registry.process(&event("ETHUSDT", 4.0, true));
    assert_eq!(signals.len(), 1);
    assert!(matches!(&signals[0], Signal::Sell { pair, .. } if pair == "ETHUSDT"));
}

#[test]
fn no_signal_between_the_thresholds() {
    let file = StrategyFileConfig { strategies: vec![rsi3("BTCUSDT")] };
    let mut registry = StrategyRegistry::from_config(&file).ok().unwrap();
    let mut signals = Vec::new();
    for price in [10.0, 11.0, 10.0, 11.0, 10.5] {
        signals = registry.process(&event("BTCUSDT", price, true));
    }
    assert!(signals.is_empty());
}

#[test]
fn crossover_strategy_buys_on_the_turn() {
    let params = vec![
        ("fast".to_string(), ParamValue::Integer(3)),
        ("slow".to_string(), ParamValue::Integer(6)),
        ("signal".to_string(), ParamValue::Integer(3)),
    ];
    let file = StrategyFileConfig { strategies: vec![entry("macd", "BTCUSDT", params)] };
    let mut registry = StrategyRegistry::from_config(&file).ok().unwrap();
    let mut prices: Vec<f64> = (0..20).map(|i| 100.0 - i as f64 * 0.5).collect();
    prices.push(90.0);
    for price in prices {
        assert!(registry.process(&event("BTCUSDT", price, true)).is_empty());
    }
    let signals = registry.process(&event("BTCUSDT", 92.0, true));
    assert_eq!(signals.len(), 1);
    assert_eq!(signals[0].side(), OrderSide::Buy);
}

#[test]
fn window_drops_the_oldest_close() {
    let file = StrategyFileConfig { strategies: Vec::new() };
    let mut registry = StrategyRegistry::from_config(&file).ok().unwrap();
    registry.max_history = 3;
    for price in [1.0, 2.0, 3.0, 4.0, 5.0] {
        registry.process(&event("BTCUSDT", price, true));
    }
    assert_eq!(registry.price_history.get("BTCUSDT").unwrap(), &vec![dec(3.0), dec(4.0), dec(5.0)]);
    let mut long = StrategyRegistry::from_config(&file).ok().unwrap();
    for i in 0..250 {
        long.process(&event("BTCUSDT", i as f64, true));
    }
    let window = long.price_history.get("BTCUSDT").unwrap();
    assert_eq!(window.len(), 200);
    assert_eq!(window[0], dec(50.0));
    assert_eq!(window[199], dec(249.0));
}

#[test]
fn events_are_dropped_unless_the_engine_runs() {
    let file = StrategyFileConfig { strategies: vec![rsi3("BTCUSDT")] };
    let mut registry = StrategyRegistry::from_config(&file).ok().unwrap();
    for price in [14.0, 13.0, 12.0] {
        registry.on_event(EngineState::Running, &event("BTCUSDT", price, true));
    }
    for state in [EngineState::Stopped, EngineState::Paused, EngineState::Halted] {
        assert!(registry.on_event(state, &event("BTCUSDT", 11.0, true)).is_empty());
        assert_eq!(registry.price_history.get("BTCUSDT").unwrap().len(), 3);
    }
    assert_eq!(registry.on_event(EngineState::Running, &event("BTCUSDT", 11.0, true)).len(), 1);
}

#[test]
fn pairs_are_streamed_once_each_in_the_order_of_first_mention() {
    let file = StrategyFileConfig {
        strategies: vec![
            rsi3("ETHUSDT"),
            rsi3("BTCUSDT"),
            entry("macd", "ETHUSDT", Vec::new()),
            rsi3("SOLUSDT"),
            rsi3("BTCUSDT"),
        ],
    };
    assert_eq!(file.pairs(), vec!["ETHUSDT".to_string(), "BTCUSDT".to_string(), "SOLUSDT".to_string()]);
    assert!(StrategyFileConfig { strategies: Vec::new() }.pairs().is_empty());
}
