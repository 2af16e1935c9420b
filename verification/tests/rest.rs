use clawbot::{Balance, BinanceClient, Error, Order, OrderSide, TradingMode};

fn dec(x: f64) -> i64 {
    (x * 100_000_000.0).round() as i64
}

fn balance(asset: &str, free: &str, locked: &str) -> Balance {
    Balance { asset: asset.to_string(), free: free.to_string(), locked: locked.to_string() }
}

#[test]
fn signature_is_the_keyed_hash_in_lower_case_hex() {
    // A published test case of the keyed hash.
    let client = BinanceClient::new("key", "Jefe");
    assert_eq!(
        client.sign("what do ya want for nothing?"),
        "5bdcc146bf60754e6a042426089575c75a003f089d2739839dec58b964ec3843"
    );
    // An empty message and a long key are signed as well.
    let long = BinanceClient::new("key", &"k".repeat(200));
    assert_eq!(long.sign("").len(), 64);
    assert_ne!(long.sign("a"), long.sign("b"));
}

#[test]
fn signed_query_appends_time_and_signature() {
    let client = BinanceClient::new("key", "Jefe");
    let query = client.signed_query_at("symbol=BTCUSDT", 1_499_827_319_559);
    let stamped = "symbol=BTCUSDT&timestamp=1499827319559";
    assert_eq!(query, format!("{stamped}&signature={}", client.sign(stamped)));
    let url = client.signed_get_url("/api/v3/account", "", 7);
    assert_eq!(
        url,
        format!(
            "https://api.binance.com/api/v3/account?&timestamp=7&signature={}",
            client.sign("&timestamp=7")
        )
    );
    let (now_query, at) = client.signed_query("a=b");
    assert_eq!(now_query, client.signed_query_at("a=b", at));
    assert!(at > 1_577_836_800_000);
}

#[test]
fn addresses() {
    assert_eq!(BinanceClient::endpoint("/api/v3/order"), "https://api.binance.com/api/v3/order");
    assert_eq!(
        BinanceClient::ticker_url("BTCUSDT"),
        "https://api.binance.com/api/v3/ticker/price?symbol=BTCUSDT"
    );
}

#[test]
fn order_parameters() {
    let market = Order::market("BTCUSDT", OrderSide::Buy, dec(0.01));
    assert_eq!(
        BinanceClient::order_params(&market),
        "symbol=BTCUSDT&side=BUY&type=MARKET&quantity=0.01"
    );
    let mut limit = Order::market("ETHUSDT", OrderSide::Sell, dec(2.0));
    limit.price = Some(dec(1234.5));
    assert_eq!(
        BinanceClient::order_params(&limit),
        "symbol=ETHUSDT&side=SELL&type=LIMIT&quantity=2&price=1234.5&timeInForce=GTC"
    );
}

#[test]
fn answers_that_are_no_success_become_exchange_errors() {
    assert_eq!(BinanceClient::read_answer(true, "200 OK", "{}".to_string()).ok().unwrap(), "{}");
    match BinanceClient::read_answer(false, "400 Bad Request", "{\"code\":-1}".to_string()) {
        Err(Error::Exchange(message)) => assert_eq!(message, "HTTP 400 Bad Request: {\"code\":-1}"),
        _ => panic!("expected an exchange error"),
    }
}

#[test]
fn fill_price_comes_from_the_first_fill_record() {
    let market = Order::market("BTCUSDT", OrderSide::Buy, dec(0.01));
    let fill = BinanceClient::fill_from_response(&market, "abc".to_string(), Some("43250.10".to_string()), 9);
    assert_eq!(fill.order_id, "abc");
    assert_eq!(fill.pair, "BTCUSDT");
    assert_eq!(fill.side, OrderSide::Buy);
    assert_eq!(fill.fill_price, dec(43250.1));
    assert_eq!(fill.quantity, dec(0.01));
    assert_eq!(fill.timestamp, 9);
    // Without fill data a market order has the price zero.
    let none = BinanceClient::fill_from_response(&market, "abc".to_string(), None, 9);
    assert_eq!(none.fill_price, 0);
    let unreadable = BinanceClient::fill_from_response(&market, "abc".to_string(), Some("?".to_string()), 9);
    assert_eq!(unreadable.fill_price, 0);
    // A limit order falls back to its limit price.
    let mut limit = Order::market("BTCUSDT", OrderSide::Sell, dec(0.01));
    limit.price = Some(dec(50_000.0));
    let fallback = BinanceClient::fill_from_response(&limit, "abc".to_string(), None, 9);
    assert_eq!(fallback.fill_price, dec(50_000.0));
    let unreadable = BinanceClient::fill_from_response(&limit, "abc".to_string(), Some("".to_string()), 9);
    assert_eq!(unreadable.fill_price, dec(50_000.0));
}

#[test]
fn ticker_price_is_read_or_refused() {
    assert_eq!(BinanceClient::ticker_price("43250.10").ok().unwrap(), dec(43250.1));
    assert!(matches!(BinanceClient::ticker_price("n/a"), Err(Error::Exchange(_))));
}

#[test]
fn balances_become_positions() {
    let balances = vec![
        balance("BTC", "0.5", "0.25"),
        balance("USDT", "1000", "0"),
        balance("ETH", "0", "0"),
        balance("BNB", "3", "0"),
        balance("SOL", "0", "2"),
        balance("DOGE", "x", "0.00000000"),
        balance("ADA", "-1", "0"),
    ];
    let positions = BinanceClient::positions_from_balances(&balances, 77);
    assert_eq!(positions.len(), 2);
    assert_eq!(positions[0].pair, "BTCUSDT");
    assert_eq!(positions[0].quantity, dec(0.75));
    assert_eq!(positions[1].pair, "SOLUSDT");
    assert_eq!(positions[1].quantity, dec(2.0));
    for position in &positions {
        assert_eq!(position.side, OrderSide::Buy);
        assert_eq!(position.entry_price, 0);
        assert_eq!(position.mode, TradingMode::Live);
        assert_eq!(position.opened_at, 77);
        assert_eq!(position.id.len(), 36);
    }
    assert_ne!(positions[0].id, positions[1].id);
    assert!(BinanceClient::positions_from_balances(&Vec::new(), 0).is_empty());
}
