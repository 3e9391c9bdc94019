use ouro::error::{AgentError, ConfigError, ExecError, GuardrailError};

#[test]
fn config_error_messages() {
    assert_eq!(
        ConfigError::IoError("denied".to_string()).message(),
        "I/O error: denied"
    );
    assert_eq!(
        ConfigError::ParseError { path: "/etc/x.toml".to_string(), message: "bad key".to_string() }
            .message(),
        "Failed to parse config at /etc/x.toml: bad key"
    );
    assert_eq!(
        ConfigError::MergeError("conflict".to_string()).message(),
        "Config merge error: conflict"
    );
}

#[test]
fn guardrail_error_messages() {
    assert_eq!(
        GuardrailError::CommandBlocked { command: "sudo ls".to_string(), reason: "no".to_string() }
            .message(),
        "Command blocked: `sudo ls` - no"
    );
    assert_eq!(
        GuardrailError::WriteOutsideWorkspace {
            path: "/etc/passwd".to_string(),
            workspace: "/tmp/W".to_string(),
        }
        .message(),
        "Write outside workspace: `/etc/passwd` is not within `/tmp/W`"
    );
}

#[test]
fn exec_error_messages() {
    assert_eq!(
        ExecError::SpawnFailed("no shell".to_string()).message(),
        "Failed to spawn shell process: no shell"
    );
    assert_eq!(
        ExecError::TimedOut { timeout_secs: 30, partial_output: "partial".to_string() }.message(),
        "Command timed out after 30s; partial output: partial"
    );
    assert_eq!(
        ExecError::ProcessFailed("wait failed".to_string()).message(),
        "Process execution failed: wait failed"
    );
}

#[test]
fn agent_error_messages() {
    assert_eq!(
        AgentError::OllamaUnavailable {
            url: "http://localhost:11434/".to_string(),
            message: "refused".to_string(),
        }
        .message(),
        "Ollama not reachable at http://localhost:11434/: refused"
    );
    assert_eq!(
        AgentError::ModelNotAvailable {
            model: "test-model".to_string(),
            message: "missing".to_string(),
        }
        .message(),
        "Model 'test-model' not available in Ollama: missing"
    );
    assert_eq!(
        AgentError::SystemPromptNotFound { path: "/ws/SYSTEM_PROMPT.md".to_string() }.message(),
        "System prompt not found at /ws/SYSTEM_PROMPT.md"
    );
    assert_eq!(AgentError::LlmError("boom".to_string()).message(), "LLM error: boom");
    assert_eq!(
        AgentError::ToolError("oops".to_string()).message(),
        "Tool execution error: oops"
    );
    assert_eq!(
        AgentError::LoggingError("disk".to_string()).message(),
        "Session logging error: disk"
    );
    assert_eq!(
        AgentError::ContextFull { turns: 42 }.message(),
        "Context window full after 42 turns"
    );
}

#[test]
fn placeholder_for_empty_file_read_content() {
    let placeholder = ouro::masking::generate_placeholder("file_read", "");
    assert!(placeholder.contains("0 lines"));
}

#[test]
fn exec_result_parse_rejects_malformed_input() {
    assert!(ouro::exec_result::exec_result_from_json("not json at all").is_none());
    assert!(ouro::exec_result::exec_result_from_json("{\"stdout\":\"x\"}").is_none());
}
