//! The engine's lifecycle: a state machine driven by operator commands.
//!
//! ```text
//! Stopped --Start--> Running
//! Running --Pause--> Paused
//! Paused --Resume--> Running
//! Running | Paused --Stop--> Stopped
//! Halted --ResetDrawdown--> Running
//! ```
//!
//! Every other command leaves the state as it is. The risk manager alone
//! moves the engine into `Halted`.

use vstd::prelude::*;
use crate::types::{EngineCommand, EngineState};

verus! {

/// What the task that drives the engine does after a command.
#[derive(Debug, Clone, Copy, PartialEq, Eq, Structural)]
pub enum EngineAction {
    /// Nothing: the command changed the state only, or was ignored.
    Nothing,
    /// Start one market stream for each configured pair and keep the handles.
    SpawnStreams,
    /// Abort every market stream and drop the handles.
    AbortStreams,
    /// The command channel is closed: end the engine task.
    Shutdown,
}

/// The state after `command` arrives in `state`.
pub open spec fn next_state(state: EngineState, command: EngineCommand) -> EngineState {
    match (state, command) {
        (EngineState::Stopped, EngineCommand::Start) => EngineState::Running,
        (EngineState::Running, EngineCommand::Pause) => EngineState::Paused,
        (EngineState::Paused, EngineCommand::Resume) => EngineState::Running,
        (EngineState::Running, EngineCommand::Stop) => EngineState::Stopped,
        (EngineState::Paused, EngineCommand::Stop) => EngineState::Stopped,
        (EngineState::Halted, EngineCommand::ResetDrawdown) => EngineState::Running,
        _ => state,
    }
}

/// What is done to the market streams when `command` arrives in `state`:
/// they are started on leaving `Stopped` and aborted on entering it.
pub open spec fn action_for(state: EngineState, command: EngineCommand) -> EngineAction {
    match (state, command) {
        (EngineState::Stopped, EngineCommand::Start) => EngineAction::SpawnStreams,
        (EngineState::Running, EngineCommand::Stop) => EngineAction::AbortStreams,
        (EngineState::Paused, EngineCommand::Stop) => EngineAction::AbortStreams,
        _ => EngineAction::Nothing,
    }
}

/// The state after `command` arrives in `state`, and what is done to the
/// market streams.
pub fn transition(state: EngineState, command: EngineCommand) -> (r: (EngineState, EngineAction))
    ensures
        r.0 == next_state(state, command),
        r.1 == action_for(state, command),
{
    match command {
        EngineCommand::Start => match state {
            EngineState::Stopped => (EngineState::Running, EngineAction::SpawnStreams),
            _ => (state, EngineAction::Nothing),
        },
        EngineCommand::Stop => match state {
            EngineState::Running => (EngineState::Stopped, EngineAction::AbortStreams),
            EngineState::Paused => (EngineState::Stopped, EngineAction::AbortStreams),
            _ => (state, EngineAction::Nothing),
        },
        EngineCommand::Pause => match state {
            EngineState::Running => (EngineState::Paused, EngineAction::Nothing),
            _ => (state, EngineAction::Nothing),
        },
        EngineCommand::Resume => match state {
            EngineState::Paused => (EngineState::Running, EngineAction::Nothing),
            _ => (state, EngineAction::Nothing),
        },
        EngineCommand::ResetDrawdown => match state {
            EngineState::Halted => (EngineState::Running, EngineAction::Nothing),
            _ => (state, EngineAction::Nothing),
        },
    }
}

/// The engine: the pairs whose market data it streams.
#[derive(Debug)]
pub struct Engine {
    pub pairs: Vec<String>,
}

impl Engine {
    /// An engine for `pairs`. The engine state starts as `Stopped`.
    pub fn new(pairs: Vec<String>) -> (r: (Engine, EngineState))
        ensures
            r.0.pairs == pairs,
            r.1 == EngineState::Stopped,
    {
        (Engine { pairs }, EngineState::Stopped)
    }

    /// One turn of the engine task. A command moves the shared state along
    /// the state machine; the end of the command channel, `None`, leaves the
    /// state alone and ends the task.
    pub fn on_command(&self, state: &mut EngineState, command: Option<EngineCommand>) -> (action: EngineAction)
        ensures
            match command {
                Some(c) => *final(state) == next_state(*old(state), c) && action == action_for(
                    *old(state),
                    c,
                ),
                None => *final(state) == *old(state) && action == EngineAction::Shutdown,
            },
    {
        match command {
            Some(c) => {
                let (next, action) = transition(*state, c);
                *state = next;
                action
            },
            None => EngineAction::Shutdown,
        }
    }
}

/// A halted engine stays halted until the drawdown is reset, and the reset
/// sets it running.
pub proof fn lemma_halt_ends_only_by_reset(command: EngineCommand)
    ensures
        command != EngineCommand::ResetDrawdown ==> next_state(EngineState::Halted, command)
            == EngineState::Halted,
        next_state(EngineState::Halted, EngineCommand::ResetDrawdown) == EngineState::Running,
{
}

/// No command moves the engine into `Halted`, and the streams are started
/// exactly on leaving `Stopped` and aborted exactly on entering it.
pub proof fn lemma_streams_follow_the_state(state: EngineState, command: EngineCommand)
    ensures
        state != EngineState::Halted ==> next_state(state, command) != EngineState::Halted,
        action_for(state, command) == EngineAction::SpawnStreams <==> state == EngineState::Stopped
            && next_state(state, command) != EngineState::Stopped,
        action_for(state, command) == EngineAction::AbortStreams <==> state != EngineState::Stopped
            && next_state(state, command) == EngineState::Stopped,
{
}

} // verus!
