//! The error taxonomy: configuration errors, guardrail rejections, shell
//! execution errors, and session errors. Each one renders to a message.

use vstd::prelude::*;

use crate::strutil::dec_digits;
use crate::strutil::push_dec_u64;

verus! {

/// Errors of configuration loading and parsing.
pub enum ConfigError {
    /// An I/O failure while reading a configuration file.
    IoError(String),
    /// A configuration file did not parse.
    ParseError { path: String, message: String },
    /// The layers could not be merged.
    MergeError(String),
}

impl ConfigError {
    /// The error's message.
    pub fn message(&self) -> (r: String)
        ensures
            r@ == match *self {
                ConfigError::IoError(e) => "I/O error: "@ + e@,
                ConfigError::ParseError { path, message } => "Failed to parse config at "@ + path@
                    + ": "@ + message@,
                ConfigError::MergeError(e) => "Config merge error: "@ + e@,
            },
    {
        let mut out = String::new();
        match self {
            ConfigError::IoError(e) => {
                out.append("I/O error: ");
                out.append(e.as_str());
            },
            ConfigError::ParseError { path, message } => {
                out.append("Failed to parse config at ");
                out.append(path.as_str());
                out.append(": ");
                out.append(message.as_str());
            },
            ConfigError::MergeError(e) => {
                out.append("Config merge error: ");
                out.append(e.as_str());
            },
        }
        out
    }
}

/// Rejections of the safety guardrails.
pub enum GuardrailError {
    /// A command matched the blocklist.
    CommandBlocked { command: String, reason: String },
    /// A write targeted a path outside the workspace.
    WriteOutsideWorkspace { path: String, workspace: String },
}

impl GuardrailError {
    /// The error's message.
    pub fn message(&self) -> (r: String)
        ensures
            r@ == match *self {
                GuardrailError::CommandBlocked { command, reason } => "Command blocked: `"@
                    + command@ + "` - "@ + reason@,
                GuardrailError::WriteOutsideWorkspace { path, workspace } => "Write outside workspace: `"@
                    + path@ + "` is not within `"@ + workspace@ + "`"@,
            },
    {
        let mut out = String::new();
        match self {
            GuardrailError::CommandBlocked { command, reason } => {
                out.append("Command blocked: `");
                out.append(command.as_str());
                out.append("` - ");
                out.append(reason.as_str());
            },
            GuardrailError::WriteOutsideWorkspace { path, workspace } => {
                out.append("Write outside workspace: `");
                out.append(path.as_str());
                out.append("` is not within `");
                out.append(workspace.as_str());
                out.append("`");
            },
        }
        out
    }
}

/// Errors of shell command execution.
pub enum ExecError {
    /// The shell process could not be spawned.
    SpawnFailed(String),
    /// The command outran its wall-clock limit.
    TimedOut { timeout_secs: u64, partial_output: String },
    /// The process failed in some other way.
    ProcessFailed(String),
}

impl ExecError {
    /// The error's message.
    pub fn message(&self) -> (r: String)
        ensures
            r@ == match *self {
                ExecError::SpawnFailed(e) => "Failed to spawn shell process: "@ + e@,
                ExecError::TimedOut { timeout_secs, partial_output } => "Command timed out after "@
                    + dec_digits(timeout_secs as nat) + "s; partial output: "@ + partial_output@,
                ExecError::ProcessFailed(e) => "Process execution failed: "@ + e@,
            },
    {
        let mut out = String::new();
        match self {
            ExecError::SpawnFailed(e) => {
                out.append("Failed to spawn shell process: ");
                out.append(e.as_str());
            },
            ExecError::TimedOut { timeout_secs, partial_output } => {
                out.append("Command timed out after ");
                push_dec_u64(&mut out, *timeout_secs);
                out.append("s; partial output: ");
                out.append(partial_output.as_str());
            },
            ExecError::ProcessFailed(e) => {
                out.append("Process execution failed: ");
                out.append(e.as_str());
            },
        }
        out
    }
}

/// Errors of the session loop and its subsystems.
pub enum AgentError {
    /// The model endpoint is not reachable.
    OllamaUnavailable { url: String, message: String },
    /// The configured model is not available at the endpoint.
    ModelNotAvailable { model: String, message: String },
    /// The operator's prompt file is missing.
    SystemPromptNotFound { path: String },
    /// The model failed mid-stream.
    LlmError(String),
    /// A tool failed outside its structured result path.
    ToolError(String),
    /// The session log could not be written.
    LoggingError(String),
    /// The context filled up.
    ContextFull { turns: u64 },
}

impl AgentError {
    /// The error's message.
    pub fn message(&self) -> (r: String)
        ensures
            r@ == match *self {
                AgentError::OllamaUnavailable { url, message } => "Ollama not reachable at "@
                    + url@ + ": "@ + message@,
                AgentError::ModelNotAvailable { model, message } => "Model '"@ + model@
                    + "' not available in Ollama: "@ + message@,
                AgentError::SystemPromptNotFound { path } => "System prompt not found at "@
                    + path@,
                AgentError::LlmError(e) => "LLM error: "@ + e@,
                AgentError::ToolError(e) => "Tool execution error: "@ + e@,
                AgentError::LoggingError(e) => "Session logging error: "@ + e@,
                AgentError::ContextFull { turns } => "Context window full after "@ + dec_digits(
                    turns as nat,
                ) + " turns"@,
            },
    {
        let mut out = String::new();
        match self {
            AgentError::OllamaUnavailable { url, message } => {
                out.append("Ollama not reachable at ");
                out.append(url.as_str());
                out.append(": ");
                out.append(message.as_str());
            },
            AgentError::ModelNotAvailable { model, message } => {
                out.append("Model '");
                out.append(model.as_str());
                out.append("' not available in Ollama: ");
                out.append(message.as_str());
            },
            AgentError::SystemPromptNotFound { path } => {
                out.append("System prompt not found at ");
                out.append(path.as_str());
            },
            AgentError::LlmError(e) => {
                out.append("LLM error: ");
                out.append(e.as_str());
            },
            AgentError::ToolError(e) => {
                out.append("Tool execution error: ");
                out.append(e.as_str());
            },
            AgentError::LoggingError(e) => {
                out.append("Session logging error: ");
                out.append(e.as_str());
            },
            AgentError::ContextFull { turns } => {
                out.append("Context window full after ");
                push_dec_u64(&mut out, *turns);
                out.append(" turns");
            },
        }
        out
    }
}

} // verus!
