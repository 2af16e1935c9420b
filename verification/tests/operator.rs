use clawbot::operator::{alert_text, handle, is_allowed, Command, ReplyStep};
use clawbot::{EngineState, RejectionReason, RiskEvent, Signal, TradingMode};

fn dec(x: f64) -> i64 {
    (x * 100_000_000.0).round() as i64
}

#[test]
fn only_listed_users_are_heard() {
    let allowed = [42, 7, -5];
    assert!(is_allowed(&allowed, 42));
    assert!(is_allowed(&allowed, 7));
    assert!(!is_allowed(&allowed, 8));
    assert!(!is_allowed(&[], 42));
    // The same bits, read as a signed number.
    assert!(is_allowed(&allowed, u64::MAX - 4));
    assert!(!is_allowed(&allowed, u64::MAX));
}

fn shown(steps: &[ReplyStep]) -> Vec<String> {
    steps
        .iter()
        .map(|step| match step {
            ReplyStep::Say(text) => format!("say {text}"),
            ReplyStep::Forward(command) => format!("forward {command:?}"),
        })
        .collect()
}

#[test]
fn start_and_stop_answers() {
    let steps = handle(Command::Start, EngineState::Running, TradingMode::Paper);
    assert_eq!(shown(&steps), vec!["say Engine is already running."]);

    for state in [EngineState::Stopped, EngineState::Paused, EngineState::Halted] {
        let steps = handle(Command::Start, state, TradingMode::Paper);
        assert_eq!(shown(&steps), vec!["forward Start", "say Engine started."]);
    }

    let steps = handle(Command::Stop, EngineState::Stopped, TradingMode::Live);
    assert_eq!(shown(&steps), vec!["say Engine is already stopped."]);

    for state in [EngineState::Running, EngineState::Paused, EngineState::Halted] {
        let steps = handle(Command::Stop, state, TradingMode::Live);
        assert_eq!(
            shown(&steps),
            vec![
                "say Closing open positions and stopping\u{2026}",
                "forward Stop",
                "say Engine stopped."
            ]
        );
    }
}

#[test]
fn status_and_reset_answers() {
    let steps = handle(Command::Status, EngineState::Paused, TradingMode::Live);
    assert_eq!(
        shown(&steps),
        vec!["say ClawBot Status\nEngine: paused\nMode: live\n(PnL data available via dashboard)"]
    );

    let steps = handle(Command::ResetDrawdown, EngineState::Running, TradingMode::Live);
    assert_eq!(shown(&steps), vec!["say No active drawdown halt."]);

    let steps = handle(Command::ResetDrawdown, EngineState::Halted, TradingMode::Live);
    assert_eq!(
        shown(&steps),
        vec!["forward ResetDrawdown", "say Drawdown reset. Engine resuming."]
    );
}

#[test]
fn alerts_in_words() {
    assert_eq!(
        alert_text(&RiskEvent::StopLossTriggered { pair: "BTCUSDT".into(), close_price: dec(980.0) }),
        "Stop-loss triggered on BTCUSDT. Position closed at 980."
    );
    assert_eq!(
        alert_text(&RiskEvent::TakeProfitTriggered {
            pair: "BTCUSDT".into(),
            close_price: dec(1030.25)
        }),
        "Take-profit triggered on BTCUSDT. Position closed at 1030.25."
    );
    assert_eq!(
        alert_text(&RiskEvent::OrderFailed { pair: "ETHUSDT".into(), error: "no".into() }),
        "Order failed on ETHUSDT: no"
    );
    assert_eq!(
        alert_text(&RiskEvent::DrawdownHaltEntered { drawdown_pct: dec(0.125) }),
        "Max drawdown breached (12.5%). Engine halted. Use /reset-drawdown to resume."
    );
    assert_eq!(
        alert_text(&RiskEvent::DrawdownHaltExited),
        "Drawdown halt cleared. Engine resuming."
    );
    assert_eq!(
        alert_text(&RiskEvent::OrderRejected {
            signal: Signal::Buy { pair: "SOLUSDT".into(), quantity: 1 },
            reason: RejectionReason::HardCeilingReached,
        }),
        "Order rejected on SOLUSDT: hard order ceiling reached"
    );
}
