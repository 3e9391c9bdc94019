//! The event vocabulary the session loop emits for dashboards and other
//! subscribers, and the agent's coarse state.

use vstd::prelude::*;

verus! {

/// The agent's coarse state between and during turns.
#[derive(Debug, Clone, Copy, PartialEq, Eq, Structural)]
pub enum AgentState {
    Idle,
    Thinking,
    Executing,
    Paused,
}

impl AgentState {
    /// The state's display name.
    pub fn as_text(&self) -> (r: String)
        ensures
            r@ == match *self {
                AgentState::Idle => "Idle"@,
                AgentState::Thinking => "Thinking"@,
                AgentState::Executing => "Executing"@,
                AgentState::Paused => "Paused"@,
            },
    {
        match self {
            AgentState::Idle => "Idle".to_owned(),
            AgentState::Thinking => "Thinking".to_owned(),
            AgentState::Executing => "Executing".to_owned(),
            AgentState::Paused => "Paused".to_owned(),
        }
    }
}

/// One event of the session loop, as subscribers see it. Context usage is
/// carried in thousandths of the limit.
pub enum AgentEvent {
    /// Streamed assistant text for one turn.
    ThoughtText { timestamp: String, turn: u64, content: String },
    /// A tool call began.
    ToolCallStarted {
        timestamp: String,
        turn: u64,
        call_id: String,
        fn_name: String,
        args_summary: String,
    },
    /// A tool call finished.
    ToolCallCompleted {
        timestamp: String,
        turn: u64,
        call_id: String,
        fn_name: String,
        result_summary: String,
        full_result: String,
    },
    /// The agent changed state.
    StateChanged(AgentState),
    /// Fresh token usage was reported.
    ContextPressure { usage_permille: u64, prompt_tokens: u64, context_limit: u64 },
    /// A new session began after a restart.
    SessionRestarted { session_number: u32 },
    /// An error was logged.
    Error { timestamp: String, turn: u64, message: String },
    /// The agent flagged a discovery.
    Discovery { timestamp: String, title: String, description: String },
    /// Turn and tool-call counters moved.
    CountersUpdated { turn: u64, tool_calls: u64 },
    /// A sub-agent's status changed.
    SubAgentStatusChanged { agent_id: String, status: String, kind: String },
}

} // verus!
