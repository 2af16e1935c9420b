//! The operator's side: the commands of the chat interface, who may give
//! them, what they answer, and how risk events are worded as alerts.

use vstd::prelude::*;
use vstd::string::StringExecFns;
use crate::decimal::{saturate, saturating};
use crate::notation::{decimal_text, format_decimal};
use crate::types::{EngineCommand, EngineState, RiskEvent, TradingMode};

verus! {

/// A command of the chat interface.
#[derive(Debug, Clone, Copy, PartialEq, Eq, Structural)]
pub enum Command {
    /// Start the trading engine.
    Start,
    /// Stop the trading engine.
    Stop,
    /// Show engine status.
    Status,
    /// Reset the drawdown halt.
    ResetDrawdown,
}

/// One step of the answer to a command.
#[derive(Debug)]
pub enum ReplyStep {
    /// Send this message to the operator.
    Say(String),
    /// Send this command to the engine.
    Forward(EngineCommand),
}

/// `step` sends the message `text`.
pub open spec fn says(step: ReplyStep, text: Seq<char>) -> bool {
    step matches ReplyStep::Say(message) && message@ == text
}

/// A user's number as the list of allowed users holds it: the same bits read
/// as a signed number.
pub open spec fn signed_id(user_id: u64) -> i64 {
    if user_id <= i64::MAX as u64 {
        user_id as i64
    } else {
        (user_id - 0x1_0000_0000_0000_0000) as i64
    }
}

/// Whether `user_id` is on the list of allowed users. Messages of other
/// users are dropped.
pub fn is_allowed(allowed: &[i64], user_id: u64) -> (ok: bool)
    ensures
        ok == allowed@.contains(signed_id(user_id)),
{
    let uid: i64 = if user_id <= i64::MAX as u64 {
        user_id as i64
    } else {
        (user_id as i128 - 0x1_0000_0000_0000_0000) as i64
    };
    let mut i: usize = 0;
    while i < allowed.len()
        invariant
            i <= allowed@.len(),
            uid == signed_id(user_id),
            forall|j: int| 0 <= j < i ==> allowed@[j] != uid,
        decreases allowed.len() - i,
    {
        if allowed[i] == uid {
            return true;
        }
        i += 1;
    }
    false
}

/// The status report.
pub open spec fn status_text(state: EngineState, mode: TradingMode) -> Seq<char> {
    "ClawBot Status\nEngine: "@ + state.text() + "\nMode: "@ + mode.text()
        + "\n(PnL data available via dashboard)"@
}

/// `steps` is the answer to `command` when the engine is in `state` and
/// trades in `mode`. A start is passed on unless the engine runs, a stop
/// unless it is stopped, a reset only while it is halted; a stop is
/// announced before it is passed on and confirmed after.
pub open spec fn answers(steps: Seq<ReplyStep>, command: Command, state: EngineState, mode: TradingMode) -> bool {
    match command {
        Command::Start => if state == EngineState::Running {
            steps.len() == 1 && says(steps[0], "Engine is already running."@)
        } else {
            &&& steps.len() == 2
            &&& steps[0] == ReplyStep::Forward(EngineCommand::Start)
            &&& says(steps[1], "Engine started."@)
        },
        Command::Stop => if state == EngineState::Stopped {
            steps.len() == 1 && says(steps[0], "Engine is already stopped."@)
        } else {
            &&& steps.len() == 3
            &&& says(steps[0], "Closing open positions and stopping\u{2026}"@)
            &&& steps[1] == ReplyStep::Forward(EngineCommand::Stop)
            &&& says(steps[2], "Engine stopped."@)
        },
        Command::Status => steps.len() == 1 && says(steps[0], status_text(state, mode)),
        Command::ResetDrawdown => if state == EngineState::Halted {
            &&& steps.len() == 2
            &&& steps[0] == ReplyStep::Forward(EngineCommand::ResetDrawdown)
            &&& says(steps[1], "Drawdown reset. Engine resuming."@)
        } else {
            steps.len() == 1 && says(steps[0], "No active drawdown halt."@)
        },
    }
}

/// The answer to `command`, step by step.
pub fn handle(command: Command, state: EngineState, mode: TradingMode) -> (steps: Vec<ReplyStep>)
    ensures
        answers(steps@, command, state, mode),
{
    let mut steps: Vec<ReplyStep> = Vec::new();
    match command {
        Command::Start => {
            if state == EngineState::Running {
                steps.push(ReplyStep::Say("Engine is already running.".to_owned()));
            } else {
                steps.push(ReplyStep::Forward(EngineCommand::Start));
                steps.push(ReplyStep::Say("Engine started.".to_owned()));
            }
        },
        Command::Stop => {
            if state == EngineState::Stopped {
                steps.push(ReplyStep::Say("Engine is already stopped.".to_owned()));
            } else {
                steps.push(ReplyStep::Say("Closing open positions and stopping\u{2026}".to_owned()));
                steps.push(ReplyStep::Forward(EngineCommand::Stop));
                steps.push(ReplyStep::Say("Engine stopped.".to_owned()));
            }
        },
        Command::Status => {
            let engine = state.to_string();
            let trading = mode.to_string();
            let text = "ClawBot Status\nEngine: ".to_owned().concat(engine.as_str()).concat(
                "\nMode: ",
            ).concat(trading.as_str()).concat("\n(PnL data available via dashboard)");
            steps.push(ReplyStep::Say(text));
        },
        Command::ResetDrawdown => {
            if state == EngineState::Halted {
                steps.push(ReplyStep::Forward(EngineCommand::ResetDrawdown));
                steps.push(ReplyStep::Say("Drawdown reset. Engine resuming.".to_owned()));
            } else {
                steps.push(ReplyStep::Say("No active drawdown halt.".to_owned()));
            }
        },
    }
    steps
}

/// A fraction of one as a percentage.
pub open spec fn percent_of(fraction: i64) -> i64 {
    saturate(fraction * 100)
}

/// The alert for a risk event, in words.
pub open spec fn alert_of(event: RiskEvent) -> Seq<char> {
    match event {
        RiskEvent::StopLossTriggered { pair, close_price } => "Stop-loss triggered on "@ + pair@
            + ". Position closed at "@ + decimal_text(close_price) + "."@,
        RiskEvent::TakeProfitTriggered { pair, close_price } => "Take-profit triggered on "@ + pair@
            + ". Position closed at "@ + decimal_text(close_price) + "."@,
        RiskEvent::OrderFailed { pair, error } => "Order failed on "@ + pair@ + ": "@ + error@,
        RiskEvent::DrawdownHaltEntered { drawdown_pct } => "Max drawdown breached ("@ + decimal_text(
            percent_of(drawdown_pct),
        ) + "%). Engine halted. Use /reset-drawdown to resume."@,
        RiskEvent::DrawdownHaltExited => "Drawdown halt cleared. Engine resuming."@,
        RiskEvent::OrderRejected { signal, reason } => "Order rejected on "@ + signal.spec_pair()
            + ": "@ + reason.text(),
    }
}

/// The alert for a risk event, in words.
pub fn alert_text(event: &RiskEvent) -> (text: String)
    ensures
        text@ == alert_of(*event),
{
    match event {
        RiskEvent::StopLossTriggered { pair, close_price } => {
            let price = format_decimal(*close_price);
            "Stop-loss triggered on ".to_owned().concat(pair.as_str()).concat(
                ". Position closed at ",
            ).concat(price.as_str()).concat(".")
        },
        RiskEvent::TakeProfitTriggered { pair, close_price } => {
            let price = format_decimal(*close_price);
            "Take-profit triggered on ".to_owned().concat(pair.as_str()).concat(
                ". Position closed at ",
            ).concat(price.as_str()).concat(".")
        },
        RiskEvent::OrderFailed { pair, error } => "Order failed on ".to_owned().concat(
            pair.as_str(),
        ).concat(": ").concat(error.as_str()),
        RiskEvent::DrawdownHaltEntered { drawdown_pct } => {
            let percent = format_decimal(saturating(*drawdown_pct as i128 * 100));
            "Max drawdown breached (".to_owned().concat(percent.as_str()).concat(
                "%). Engine halted. Use /reset-drawdown to resume.",
            )
        },
        RiskEvent::DrawdownHaltExited => "Drawdown halt cleared. Engine resuming.".to_owned(),
        RiskEvent::OrderRejected { signal, reason } => {
            let why = reason.to_string();
            "Order rejected on ".to_owned().concat(signal.pair()).concat(": ").concat(why.as_str())
        },
    }
}

} // verus!
