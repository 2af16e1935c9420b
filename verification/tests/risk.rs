use clawbot::{
    EngineState, MarketEvent, OrderSide, Position, RejectionReason, RiskConfig, RiskEvent,
    RiskManager, Signal, TradingMode, Verdict, MAX_OPEN_ORDERS,
};

fn dec(x: f64) -> i64 {
    (x * 100_000_000.0).round() as i64
}

fn make_position(pair: &str, entry_price: f64, quantity: f64) -> Position {
    Position {
        id: "test".into(),
        pair: pair.into(),
        side: OrderSide::Buy,
        entry_price: dec(entry_price),
        quantity: dec(quantity),
        mode: TradingMode::Paper,
        opened_at: 0,
    }
}

fn make_event(pair: &str, price: f64) -> MarketEvent {
    MarketEvent {
        pair: pair.into(),
        price: dec(price),
        open: dec(price),
        high: dec(price),
        low: dec(price),
        volume: dec(100.0),
        is_candle_closed: true,
        timestamp: 0,
    }
}

fn make_manager(config: RiskConfig) -> RiskManager {
    RiskManager::new(config, dec(10_000.0))
}

#[test]
fn stop_loss_fires_at_threshold() {
    let config = RiskConfig { stop_loss_pct: dec(0.02), ..RiskConfig::default() };
    let mut manager = make_manager(config);
    let mut state = EngineState::Running;

    // Add an open position at 1000.0
    let mut positions = vec![make_position("BTCUSDT", 1000.0, 0.01)];

    // Price drops 2% -> stop-loss should trigger
    let out = manager.handle_market_event(&make_event("BTCUSDT", 980.0), &mut positions, &mut state);

    let event = &out.events[0];
    assert!(
        matches!(event, RiskEvent::StopLossTriggered { .. }),
        "Expected StopLossTriggered, got: {:?}",
        event
    );
    match event {
        RiskEvent::StopLossTriggered { pair, close_price } => {
            assert_eq!(pair, "BTCUSDT");
            assert_eq!(*close_price, dec(980.0));
        }
        _ => unreachable!(),
    }

    assert_eq!(out.orders.len(), 1);
    let order = &out.orders[0];
    assert_eq!(order.side, OrderSide::Sell);
    assert_eq!(order.quantity, dec(0.01));
    assert_eq!(order.pair, "BTCUSDT");
    assert!(order.price.is_none());

    assert!(positions.is_empty(), "Position should be removed after stop-loss");
    assert_eq!(out.events.len(), 1);
    // 0.01 of a fall of 20: a loss of 0.2.
    assert_eq!(manager.portfolio_value_usd, dec(10_000.0) - dec(0.2));
    assert_eq!(manager.portfolio_peak_usd, dec(10_000.0));
    assert_eq!(state, EngineState::Running);
}

#[test]
fn take_profit_fires_at_threshold() {
    let config = RiskConfig { take_profit_pct: dec(0.03), ..RiskConfig::default() };
    let mut manager = make_manager(config);
    let mut state = EngineState::Running;
    let mut positions = vec![make_position("BTCUSDT", 1000.0, 0.01)];

    let out = manager.handle_market_event(&make_event("BTCUSDT", 1030.0), &mut positions, &mut state);

    let event = &out.events[0];
    assert!(matches!(event, RiskEvent::TakeProfitTriggered { .. }), "Expected TakeProfitTriggered");
    match event {
        RiskEvent::TakeProfitTriggered { pair, close_price } => {
            assert_eq!(pair, "BTCUSDT");
            assert_eq!(*close_price, dec(1030.0));
        }
        _ => unreachable!(),
    }
    assert_eq!(out.orders.len(), 1);
    assert_eq!(out.orders[0].side, OrderSide::Sell);

    assert!(positions.is_empty(), "Position should be removed after take-profit");
    assert_eq!(manager.portfolio_value_usd, dec(10_000.0) + dec(0.3));
    assert_eq!(manager.portfolio_peak_usd, dec(10_000.0) + dec(0.3));
}

#[test]
fn exposure_limit_rejects_large_order() {
    let config = RiskConfig { max_exposure_per_trade_usd: dec(50.0), ..RiskConfig::default() };
    let mut manager = make_manager(config);
    let mut state = EngineState::Running;
    let mut positions: Vec<Position> = Vec::new();

    // Seed a price
    manager.handle_market_event(&make_event("BTCUSDT", 1000.0), &mut positions, &mut state);

    // quantity=0.1 @ 1000.0 = 100 USD > 50 USD limit
    let out = manager.handle_signal(
        Signal::Buy { pair: "BTCUSDT".into(), quantity: dec(0.1) },
        state,
        positions.len(),
    );

    let event = &out.events[0];
    assert!(
        matches!(
            event,
            RiskEvent::OrderRejected { reason: RejectionReason::ExposureLimitExceeded, .. }
        ),
        "Expected ExposureLimitExceeded rejection"
    );
    assert!(out.orders.is_empty());
}

#[test]
fn drawdown_halt_engages_and_blocks_orders() {
    let config = RiskConfig { max_drawdown_pct: dec(0.10), ..RiskConfig::default() };
    let mut manager = make_manager(config);

    // Simulate portfolio below peak by 10%
    manager.portfolio_value_usd = dec(9000.0);
    manager.portfolio_peak_usd = dec(10_000.0);

    // First set state to halted manually to test blocking
    let state = EngineState::Halted;

    let out = manager.handle_signal(
        Signal::Buy { pair: "ETHUSDT".into(), quantity: dec(0.01) },
        state,
        0,
    );

    let event = &out.events[0];
    assert!(
        matches!(event, RiskEvent::OrderRejected { reason: RejectionReason::DrawdownHalt, .. }),
        "Expected DrawdownHalt rejection"
    );
    assert!(out.orders.is_empty());
}

#[test]
fn hard_ceiling_rejects_nth_plus_one_order() {
    let config = RiskConfig {
        max_exposure_per_trade_usd: dec(10_000.0), // large enough to not trigger
        ..RiskConfig::default()
    };
    let mut manager = make_manager(config);
    let mut state = EngineState::Running;

    // Fill up to the hard ceiling
    let mut positions: Vec<Position> = Vec::new();
    for i in 0..MAX_OPEN_ORDERS {
        positions.push(make_position(&format!("PAIR{i}USDT"), 100.0, 1.0));
    }

    manager.handle_market_event(&make_event("NEWPAIR", 100.0), &mut positions, &mut state);

    let out = manager.handle_signal(
        Signal::Buy { pair: "NEWPAIR".into(), quantity: dec(0.01) },
        state,
        positions.len(),
    );

    let event = &out.events[0];
    assert!(
        matches!(
            event,
            RiskEvent::OrderRejected { reason: RejectionReason::HardCeilingReached, .. }
        ),
        "Expected HardCeilingReached rejection"
    );
    assert!(out.orders.is_empty());
    assert_eq!(positions.len(), MAX_OPEN_ORDERS);
}

#[test]
fn admitted_signal_becomes_one_market_order() {
    let manager = make_manager(RiskConfig::default());
    let out = manager.handle_signal(
        Signal::Sell { pair: "ETHUSDT".into(), quantity: dec(0.5) },
        EngineState::Running,
        4,
    );
    assert!(out.events.is_empty());
    assert_eq!(out.orders.len(), 1);
    assert_eq!(out.orders[0].pair, "ETHUSDT");
    assert_eq!(out.orders[0].side, OrderSide::Sell);
    assert_eq!(out.orders[0].quantity, dec(0.5));
    assert!(out.orders[0].price.is_none());
}

#[test]
fn exposure_is_not_tested_without_a_price() {
    let config = RiskConfig { max_exposure_per_trade_usd: dec(50.0), ..RiskConfig::default() };
    let manager = make_manager(config);
    let out = manager.handle_signal(
        Signal::Buy { pair: "BTCUSDT".into(), quantity: dec(1000.0) },
        EngineState::Running,
        0,
    );
    assert_eq!(out.orders.len(), 1);
    assert!(out.events.is_empty());
}

#[test]
fn exposure_at_the_limit_is_admitted() {
    let config = RiskConfig { max_exposure_per_trade_usd: dec(100.0), ..RiskConfig::default() };
    let mut manager = make_manager(config);
    let mut state = EngineState::Running;
    let mut positions: Vec<Position> = Vec::new();
    manager.handle_market_event(&make_event("BTCUSDT", 1000.0), &mut positions, &mut state);
    let at = manager.handle_signal(
        Signal::Buy { pair: "BTCUSDT".into(), quantity: dec(0.1) },
        state,
        0,
    );
    assert_eq!(at.orders.len(), 1);
    let above = manager.handle_signal(
        Signal::Buy { pair: "BTCUSDT".into(), quantity: dec(0.1) + 1 },
        state,
        0,
    );
    assert!(above.orders.is_empty());
}

#[test]
fn halt_is_tested_before_the_ceiling() {
    let manager = make_manager(RiskConfig::default());
    let out = manager.handle_signal(
        Signal::Buy { pair: "BTCUSDT".into(), quantity: dec(0.1) },
        EngineState::Halted,
        MAX_OPEN_ORDERS,
    );
    match &out.events[0] {
        RiskEvent::OrderRejected { signal, reason } => {
            assert!(matches!(reason, RejectionReason::DrawdownHalt));
            assert_eq!(signal.pair(), "BTCUSDT");
            assert_eq!(signal.quantity(), dec(0.1));
        }
        other => panic!("unexpected event {:?}", other),
    }
}

#[test]
fn paused_and_stopped_engines_are_admitted_by_the_risk_manager() {
    // Signals are held back by the registry while the engine is not running;
    // the risk manager itself rejects only when halted.
    let manager = make_manager(RiskConfig::default());
    for state in [EngineState::Paused, EngineState::Stopped] {
        let out = manager.handle_signal(
            Signal::Buy { pair: "BTCUSDT".into(), quantity: dec(0.1) },
            state,
            0,
        );
        assert_eq!(out.orders.len(), 1);
    }
}

#[test]
fn no_close_just_inside_the_thresholds() {
    let mut manager = make_manager(RiskConfig::default());
    let mut state = EngineState::Running;
    let mut positions = vec![make_position("BTCUSDT", 1000.0, 0.01)];
    // One unit above the stop-loss price and one unit below the take-profit price.
    for price in [dec(980.0) + 1, dec(1040.0) - 1] {
        let mut event = make_event("BTCUSDT", 0.0);
        event.price = price;
        let out = manager.handle_market_event(&event, &mut positions, &mut state);
        assert!(out.orders.is_empty());
        assert!(out.events.is_empty());
        assert_eq!(positions.len(), 1);
    }
    assert_eq!(manager.portfolio_value_usd, dec(10_000.0));
    assert_eq!(manager.verdict(&positions[0], &"BTCUSDT".to_string(), dec(980.0)), Verdict::StopLoss);
    assert_eq!(manager.verdict(&positions[0], &"BTCUSDT".to_string(), dec(1040.0)), Verdict::TakeProfit);
    assert_eq!(manager.verdict(&positions[0], &"ETHUSDT".to_string(), dec(1.0)), Verdict::Hold);
}

#[test]
fn sell_positions_mirror_the_thresholds() {
    let mut manager = make_manager(RiskConfig::default());
    let mut state = EngineState::Running;
    let mut short = make_position("BTCUSDT", 1000.0, 0.01);
    short.side = OrderSide::Sell;
    let mut positions = vec![short];
    let out = manager.handle_market_event(&make_event("BTCUSDT", 1020.0), &mut positions, &mut state);
    assert!(matches!(out.events[0], RiskEvent::StopLossTriggered { .. }));
    assert_eq!(out.orders[0].side, OrderSide::Buy);
    assert!(positions.is_empty());
}

#[test]
fn positions_without_entry_price_or_on_other_pairs_are_left_alone() {
    let mut manager = make_manager(RiskConfig::default());
    let mut state = EngineState::Running;
    let mut positions = vec![
        make_position("BTCUSDT", 0.0, 1.0),
        make_position("ETHUSDT", 1000.0, 1.0),
        make_position("BTCUSDT", -5.0, 1.0),
    ];
    let out = manager.handle_market_event(&make_event("BTCUSDT", 1.0), &mut positions, &mut state);
    assert!(out.orders.is_empty());
    assert!(out.events.is_empty());
    assert_eq!(positions.len(), 3);
}

#[test]
fn several_positions_close_in_order_and_the_breaker_halts() {
    let config = RiskConfig { max_drawdown_pct: dec(0.10), ..RiskConfig::default() };
    let mut manager = make_manager(config);
    let mut state = EngineState::Running;
    let mut first = make_position("BTCUSDT", 1000.0, 2.0);
    first.id = "a".into();
    let mut second = make_position("ETHUSDT", 10.0, 1.0);
    second.id = "b".into();
    let mut third = make_position("BTCUSDT", 2000.0, 1.0);
    third.id = "c".into();
    let mut positions = vec![first, second, third];

    // At 900 the first loses 200 and the third 1100: 1300 of 10000.
    let out = manager.handle_market_event(&make_event("BTCUSDT", 900.0), &mut positions, &mut state);
    assert_eq!(out.orders.len(), 2);
    assert_eq!(out.orders[0].quantity, dec(2.0));
    assert_eq!(out.orders[1].quantity, dec(1.0));
    assert_eq!(out.events.len(), 3);
    assert!(matches!(out.events[0], RiskEvent::StopLossTriggered { .. }));
    assert!(matches!(out.events[1], RiskEvent::StopLossTriggered { .. }));
    match &out.events[2] {
        RiskEvent::DrawdownHaltEntered { drawdown_pct } => assert_eq!(*drawdown_pct, dec(0.13)),
        other => panic!("unexpected event {:?}", other),
    }
    assert_eq!(positions.len(), 1);
    assert_eq!(positions[0].id, "b");
    assert_eq!(manager.portfolio_value_usd, dec(8700.0));
    assert_eq!(manager.portfolio_peak_usd, dec(10_000.0));
    assert_eq!(state, EngineState::Halted);

    // Already halted: the breaker does not report again.
    let again = manager.handle_market_event(&make_event("BTCUSDT", 900.0), &mut positions, &mut state);
    assert!(again.events.is_empty());
    assert_eq!(state, EngineState::Halted);
}

#[test]
fn peak_never_falls() {
    let mut manager = make_manager(RiskConfig::default());
    let mut last_peak = manager.portfolio_peak_usd;
    for pnl in [dec(5.0), dec(-20.0), dec(3.0), dec(30.0), dec(-1.0)] {
        manager.update_portfolio_value(pnl);
        assert!(manager.portfolio_peak_usd >= last_peak);
        assert!(manager.portfolio_peak_usd >= manager.portfolio_value_usd);
        last_peak = manager.portfolio_peak_usd;
    }
    assert_eq!(manager.portfolio_value_usd, dec(10_017.0));
    assert_eq!(manager.portfolio_peak_usd, dec(10_018.0));
}

#[test]
fn portfolio_value_saturates() {
    let mut manager = RiskManager::new(RiskConfig::default(), i64::MAX - 1);
    manager.update_portfolio_value(10);
    assert_eq!(manager.portfolio_value_usd, i64::MAX);
    assert_eq!(manager.portfolio_peak_usd, i64::MAX);
}

#[test]
fn breaker_needs_a_positive_peak() {
    let mut manager = RiskManager::new(RiskConfig::default(), 0);
    manager.update_portfolio_value(dec(-50.0));
    let mut state = EngineState::Running;
    assert!(manager.check_drawdown(&mut state).is_none());
    assert_eq!(state, EngineState::Running);
}

#[test]
fn breaker_trips_exactly_at_the_limit() {
    let mut manager = make_manager(RiskConfig::default());
    manager.portfolio_value_usd = dec(9000.0) + 1;
    let mut state = EngineState::Paused;
    assert!(manager.check_drawdown(&mut state).is_none());
    assert_eq!(state, EngineState::Paused);
    manager.portfolio_value_usd = dec(9000.0);
    match manager.check_drawdown(&mut state) {
        Some(RiskEvent::DrawdownHaltEntered { drawdown_pct }) => assert_eq!(drawdown_pct, dec(0.10)),
        other => panic!("unexpected answer {:?}", other),
    }
    assert_eq!(state, EngineState::Halted);
}

#[test]
fn risk_rules_never_panic_on_extreme_prices() {
    let extremes = [i64::MIN, -1, 0, 1, 10_000, i64::MAX / 2, i64::MAX];
    for &entry in &extremes {
        for &current in &extremes {
            for &quantity in &extremes {
                let mut manager = RiskManager::new(
                    RiskConfig {
                        stop_loss_pct: dec(0.02),
                        take_profit_pct: dec(0.04),
                        max_exposure_per_trade_usd: dec(10_000.0),
                        max_drawdown_pct: dec(0.15),
                    },
                    dec(10_000.0),
                );
                let mut position = make_position("TESTUSDT", 0.0, 0.0);
                position.id = "p1".into();
                position.entry_price = entry;
                position.quantity = quantity;
                let mut positions = vec![position];
                let mut state = EngineState::Running;
                let mut event = make_event("TESTUSDT", 0.0);
                event.price = current;
                let out = manager.handle_market_event(&event, &mut positions, &mut state);
                assert_eq!(out.orders.len() + positions.len(), 1);
                assert!(manager.portfolio_peak_usd >= dec(10_000.0));
            }
        }
    }
}

#[test]
fn default_limits() {
    let config = RiskConfig::default();
    assert_eq!(config.stop_loss_pct, dec(0.02));
    assert_eq!(config.take_profit_pct, dec(0.04));
    assert_eq!(config.max_exposure_per_trade_usd, dec(100.0));
    assert_eq!(config.max_drawdown_pct, dec(0.10));
    assert_eq!(MAX_OPEN_ORDERS, 5);
}

#[test]
fn stop_loss_decides_where_both_thresholds_are_reached() {
    let config = RiskConfig {
        stop_loss_pct: dec(0.02),
        take_profit_pct: dec(-0.5),
        ..RiskConfig::default()
    };
    let mut manager = make_manager(config);
    let mut state = EngineState::Running;
    let mut positions = vec![make_position("BTCUSDT", 1000.0, 0.01)];
    let out = manager.handle_market_event(&make_event("BTCUSDT", 980.0), &mut positions, &mut state);
    assert!(matches!(out.events[0], RiskEvent::StopLossTriggered { .. }));
    let mut positions = vec![make_position("BTCUSDT", 1000.0, 0.01)];
    let out = manager.handle_market_event(&make_event("BTCUSDT", 990.0), &mut positions, &mut state);
    assert!(matches!(out.events[0], RiskEvent::TakeProfitTriggered { .. }));
}
