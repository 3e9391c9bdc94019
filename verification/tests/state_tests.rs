use ouro::app_state::{
    first_line_or_truncate, format_entry_label, kind_description, kind_label, kind_prefix,
    log_kind_label, status_icon, status_text, wrap_text, AppState, LogEntryKind,
};
use ouro::config::{restart_decision, PartialConfig, RestartDecision};
use ouro::events::{AgentEvent, AgentState};
use ouro::prompt::{build_sub_agent_prompt, build_system_prompt, restart_marker, wind_down_message};
use ouro::registry::{SubAgentInfo, SubAgentKind, SubAgentStatus};
use ouro::strutil::truncate_chars;
use ouro::tools::tool_descriptions;

#[test]
fn new_state_has_correct_defaults() {
    let state = AppState::new();
    assert_eq!(state.agent_state, AgentState::Idle);
    assert!(state.auto_scroll);
    assert!(state.sub_agent_panel_visible);
    assert_eq!(state.active_tab, 0);
    assert_eq!(state.session_number, 1);
    assert_eq!(state.turn_count, 0);
    assert_eq!(state.tool_call_count, 0);
    assert!(state.log_entries.is_empty());
    assert!(state.discoveries.is_empty());
    assert!(!state.quit_pending);
}

#[test]
fn apply_thought_pushes_expanded_entry() {
    let mut state = AppState::new();
    state.apply_event(AgentEvent::ThoughtText {
        timestamp: "14:32:07".into(),
        turn: 1,
        content: "I should read the config file first.".into(),
    });

    assert_eq!(state.log_entries.len(), 1);
    let entry = &state.log_entries[0];
    assert_eq!(entry.kind, LogEntryKind::Thought);
    assert!(entry.expanded);
    assert_eq!(entry.timestamp, "14:32:07");
}

#[test]
fn apply_tool_call_started_pushes_collapsed_entry() {
    let mut state = AppState::new();
    state.apply_event(AgentEvent::ToolCallStarted {
        timestamp: "14:32:08".into(),
        turn: 1,
        call_id: "call_001".into(),
        fn_name: "shell_exec".into(),
        args_summary: "ls -la".into(),
    });

    assert_eq!(state.log_entries.len(), 1);
    let entry = &state.log_entries[0];
    assert_eq!(entry.kind, LogEntryKind::ToolCall);
    assert!(!entry.expanded);
    assert_eq!(entry.summary, "shell_exec(ls -la)");
}

#[test]
fn apply_tool_call_completed_counts_lines() {
    let mut state = AppState::new();
    let full_result = "line1\nline2\nline3\nline4\nline5".to_string();
    state.apply_event(AgentEvent::ToolCallCompleted {
        timestamp: "14:32:09".into(),
        turn: 1,
        call_id: "call_001".into(),
        fn_name: "shell_exec".into(),
        result_summary: "ok".into(),
        full_result: full_result.clone(),
    });

    assert_eq!(state.log_entries.len(), 1);
    let entry = &state.log_entries[0];
    assert_eq!(entry.kind, LogEntryKind::ToolResult);
    assert!(!entry.expanded);
    assert_eq!(entry.summary, "shell_exec: 5 lines of output");
    assert_eq!(entry.full_content, full_result);
}

#[test]
fn apply_state_changed_updates_agent_state() {
    let mut state = AppState::new();
    assert_eq!(state.agent_state, AgentState::Idle);

    state.apply_event(AgentEvent::StateChanged(AgentState::Thinking));
    assert_eq!(state.agent_state, AgentState::Thinking);

    state.apply_event(AgentEvent::StateChanged(AgentState::Executing));
    assert_eq!(state.agent_state, AgentState::Executing);

    state.apply_event(AgentEvent::StateChanged(AgentState::Paused));
    assert_eq!(state.agent_state, AgentState::Paused);
}

#[test]
fn apply_context_pressure_updates_fields() {
    let mut state = AppState::new();
    state.apply_event(AgentEvent::ContextPressure {
        usage_permille: 730,
        prompt_tokens: 3000,
        context_limit: 4096,
    });

    assert_eq!(state.context_usage_permille, 730);
    assert_eq!(state.prompt_tokens, 3000);
    assert_eq!(state.context_limit, 4096);
}

#[test]
fn apply_session_restarted_pushes_separator() {
    let mut state = AppState::new();
    state.apply_event(AgentEvent::SessionRestarted { session_number: 3 });

    assert_eq!(state.session_number, 3);
    assert_eq!(state.log_entries.len(), 1);
    let entry = &state.log_entries[0];
    assert_eq!(entry.kind, LogEntryKind::SessionSeparator);
    assert_eq!(entry.summary, "--- Session 3 started ---");
}

#[test]
fn apply_error_pushes_expanded_entry() {
    let mut state = AppState::new();
    state.apply_event(AgentEvent::Error {
        timestamp: "14:33:00".into(),
        turn: 5,
        message: "Connection refused".into(),
    });

    assert_eq!(state.log_entries.len(), 1);
    let entry = &state.log_entries[0];
    assert_eq!(entry.kind, LogEntryKind::Error);
    assert!(entry.expanded);
    assert_eq!(entry.full_content, "Connection refused");
}

#[test]
fn apply_discovery_appends_to_list() {
    let mut state = AppState::new();
    state.apply_event(AgentEvent::Discovery {
        timestamp: "14:34:00".into(),
        title: "Makefile".into(),
        description: "Found a Makefile in the project root".into(),
    });

    assert_eq!(state.discoveries.len(), 1);
    assert_eq!(state.discoveries[0].2, "Found a Makefile in the project root");
}

#[test]
fn apply_counters_updated() {
    let mut state = AppState::new();
    state.apply_event(AgentEvent::CountersUpdated { turn: 12, tool_calls: 47 });
    assert_eq!(state.turn_count, 12);
    assert_eq!(state.tool_call_count, 47);
}

#[test]
fn toggle_expand_flips_state() {
    let mut state = AppState::new();
    state.apply_event(AgentEvent::ToolCallStarted {
        timestamp: "t".into(),
        turn: 1,
        call_id: "c".into(),
        fn_name: "f".into(),
        args_summary: "a".into(),
    });

    assert!(!state.log_entries[0].expanded);
    state.toggle_expand(0);
    assert!(state.log_entries[0].expanded);
    state.toggle_expand(0);
    assert!(!state.log_entries[0].expanded);
}

#[test]
fn toggle_expand_out_of_bounds_is_noop() {
    let mut state = AppState::new();
    state.toggle_expand(99);
}

#[test]
fn scroll_up_disables_auto_scroll() {
    let mut state = AppState::new();
    for i in 0..5u64 {
        state.apply_event(AgentEvent::ThoughtText {
            timestamp: format!("t{i}"),
            turn: i,
            content: format!("entry {i}"),
        });
    }
    assert!(state.auto_scroll);
    state.scroll_up();
    assert!(!state.auto_scroll);
}

#[test]
fn jump_to_bottom_re_enables_auto_scroll() {
    let mut state = AppState::new();
    for i in 0..5u64 {
        state.apply_event(AgentEvent::ThoughtText {
            timestamp: format!("t{i}"),
            turn: i,
            content: format!("entry {i}"),
        });
    }
    state.scroll_up();
    assert!(!state.auto_scroll);

    state.jump_to_bottom();
    assert!(state.auto_scroll);
    assert_eq!(state.log_scroll_offset, 4);
}

#[test]
fn scroll_down_clamps_to_last_entry() {
    let mut state = AppState::new();
    state.apply_event(AgentEvent::ThoughtText {
        timestamp: "t".into(),
        turn: 1,
        content: "only entry".into(),
    });
    state.scroll_down();
    state.scroll_down();
    state.scroll_down();
    assert_eq!(state.log_scroll_offset, 0);
}

#[test]
fn auto_scroll_moves_offset_on_new_entries() {
    let mut state = AppState::new();
    assert_eq!(state.log_scroll_offset, 0);
    for (i, expected) in [(1u64, 0usize), (2, 1), (3, 2)] {
        state.apply_event(AgentEvent::ThoughtText {
            timestamp: format!("t{i}"),
            turn: i,
            content: format!("entry {i}"),
        });
        assert_eq!(state.log_scroll_offset, expected);
    }
}

#[test]
fn auto_scroll_disabled_does_not_move_offset() {
    let mut state = AppState::new();
    state.apply_event(AgentEvent::ThoughtText {
        timestamp: "t1".into(),
        turn: 1,
        content: "first".into(),
    });
    state.scroll_up();
    let offset_before = state.log_scroll_offset;
    state.apply_event(AgentEvent::ThoughtText {
        timestamp: "t2".into(),
        turn: 2,
        content: "second".into(),
    });
    assert_eq!(state.log_scroll_offset, offset_before);
}

#[test]
fn agent_state_display() {
    assert_eq!(AgentState::Thinking.as_text(), "Thinking");
    assert_eq!(AgentState::Executing.as_text(), "Executing");
    assert_eq!(AgentState::Idle.as_text(), "Idle");
    assert_eq!(AgentState::Paused.as_text(), "Paused");
}

#[test]
fn first_line_truncation() {
    let mut state = AppState::new();
    let long_content = "x".repeat(200);
    state.apply_event(AgentEvent::ThoughtText {
        timestamp: "t".into(),
        turn: 1,
        content: long_content,
    });
    let entry = &state.log_entries[0];
    assert!(entry.summary.len() <= 123);
    assert!(entry.summary.ends_with("..."));
}

#[test]
fn first_line_or_truncate_takes_first_line() {
    assert_eq!(first_line_or_truncate("alpha\nbeta", 120), "alpha");
    assert_eq!(first_line_or_truncate("", 120), "");
}

// -- Labels -----------------------------------------------------------------

fn info(kind: SubAgentKind, status: SubAgentStatus) -> SubAgentInfo {
    SubAgentInfo {
        id: "a1".to_string(),
        kind,
        parent_id: None,
        status,
        depth: 0,
        spawned_at: String::new(),
        completed_at: None,
    }
}

#[test]
fn format_entry_label_llm_running() {
    let entry = info(
        SubAgentKind::LlmSession { model: "qwen".to_string(), goal: "fix stuff".to_string() },
        SubAgentStatus::Running,
    );
    let label = format_entry_label(&entry);
    assert!(label.contains("[*]"));
    assert!(label.contains("LLM"));
    assert!(label.contains("fix stuff"));
    assert!(label.contains("running"));
}

#[test]
fn format_entry_label_proc_completed() {
    let entry = info(
        SubAgentKind::BackgroundProcess { command: "cargo build".to_string() },
        SubAgentStatus::Completed,
    );
    let label = format_entry_label(&entry);
    assert!(label.contains("[+]"));
    assert!(label.contains("Proc"));
    assert!(label.contains("cargo build"));
    assert!(label.contains("completed"));
}

#[test]
fn status_icons_are_distinct() {
    assert_ne!(
        status_icon(&SubAgentStatus::Running),
        status_icon(&SubAgentStatus::Completed)
    );
    assert_ne!(
        status_icon(&SubAgentStatus::Running),
        status_icon(&SubAgentStatus::Failed("err".into()))
    );
    assert_ne!(status_icon(&SubAgentStatus::Running), status_icon(&SubAgentStatus::Killed));
}

#[test]
fn truncate_long_string() {
    let long = "a".repeat(50);
    let result = truncate_chars(&long, 10);
    assert_eq!(result.len(), 13);
    assert!(result.ends_with("..."));
}

#[test]
fn truncate_short_string_unchanged() {
    let result = truncate_chars("hello", 10);
    assert_eq!(result, "hello");
}

#[test]
fn kind_labels_and_descriptions() {
    let llm = SubAgentKind::LlmSession { model: "m".to_string(), goal: "g".to_string() };
    let proc = SubAgentKind::BackgroundProcess { command: "c".to_string() };
    assert_eq!(kind_label(&llm), "LLM");
    assert_eq!(kind_label(&proc), "Proc");
    assert_eq!(kind_description(&llm), "g");
    assert_eq!(kind_description(&proc), "c");
    assert_eq!(status_text(&SubAgentStatus::Killed), "killed");
    assert!(status_text(&SubAgentStatus::Failed("why".to_string())).contains("failed: why"));
}

#[test]
fn log_kind_prefixes_are_distinct() {
    let kinds = [
        LogEntryKind::Thought,
        LogEntryKind::ToolCall,
        LogEntryKind::ToolResult,
        LogEntryKind::Error,
        LogEntryKind::SessionSeparator,
        LogEntryKind::System,
    ];
    for (i, a) in kinds.iter().enumerate() {
        for b in kinds.iter().skip(i + 1) {
            assert_ne!(kind_prefix(*a), kind_prefix(*b));
        }
    }
    assert_eq!(log_kind_label(LogEntryKind::Thought), "thought");
    assert_eq!(log_kind_label(LogEntryKind::SessionSeparator), "");
}

#[test]
fn wrap_text_short() {
    let result = wrap_text("hello", 80);
    assert_eq!(result, vec!["hello"]);
}

#[test]
fn wrap_text_long() {
    let result = wrap_text("abcdef", 3);
    assert_eq!(result, vec!["abc", "def"]);
}

// -- Prompts ------------------------------------------------------------------

#[test]
fn build_sub_agent_prompt_includes_goal() {
    let goal = "Refactor the auth module to use JWT tokens";
    let tools = tool_descriptions();
    let prompt = build_sub_agent_prompt(goal, &Vec::new(), &tools);
    assert!(prompt.contains("sub-agent"));
    assert!(prompt.contains(goal));
    assert!(prompt.contains("Available Tools"));
}

#[test]
fn build_sub_agent_prompt_includes_context() {
    let goal = "Fix the build";
    let context = vec![
        ("language".to_string(), "Rust".to_string()),
        ("priority".to_string(), "high".to_string()),
    ];
    let tools = tool_descriptions();
    let prompt = build_sub_agent_prompt(goal, &context, &tools);
    assert!(prompt.contains("language"));
    assert!(prompt.contains("Rust"));
    assert!(prompt.contains("priority"));
    assert!(prompt.contains("high"));
}

#[test]
fn build_sub_agent_prompt_omits_context_section_when_empty() {
    let tools = tool_descriptions();
    let prompt = build_sub_agent_prompt("Do something", &Vec::new(), &tools);
    assert!(!prompt.contains("## Context"));
}

#[test]
fn system_prompt_wraps_operator_content() {
    let prompt = build_system_prompt(
        "You are a helpful coding assistant.\nFocus on Rust code.",
        "qwen2.5:7b",
        "/tmp/ws",
        "- shell_exec: Execute a shell command\n- file_read: Read a file",
        1,
    );
    assert!(prompt.contains("Ouroboros research harness"));
    assert!(prompt.contains("qwen2.5:7b"));
    assert!(prompt.contains("/tmp/ws"));
    assert!(prompt.contains("shell_exec: Execute a shell command"));
    assert!(prompt.contains("File writes are restricted to the workspace directory"));
    assert!(prompt.contains("Read access is unrestricted"));
    assert!(prompt.contains("You are a helpful coding assistant."));
    let harness_pos = prompt.find("Ouroboros research harness").unwrap();
    let user_pos = prompt.find("You are a helpful coding assistant.").unwrap();
    assert!(harness_pos < user_pos);
    assert!(!prompt.contains("Session Continuity"));
}

#[test]
fn system_prompt_includes_continuity_on_restart() {
    let prompt = build_system_prompt("My prompt.", "test-model", "/tmp/ws", "tools", 3);
    assert!(prompt.contains("Session Continuity"));
    assert!(prompt.contains("session #3"));
    assert!(prompt.contains("restarted due to context window limits"));
    assert!(prompt.contains("My prompt."));
}

#[test]
fn restart_marker_names_the_session() {
    let marker = restart_marker(2);
    assert!(marker.contains("Session #2"));
    assert!(marker.contains("context was full"));
}

#[test]
fn wind_down_message_names_the_usage() {
    let msg = wind_down_message(92);
    assert!(msg.contains("92% full"));
    assert!(msg.contains("wrap up"));
}

// -- Configuration merge --------------------------------------------------------

fn with(f: impl FnOnce(&mut PartialConfig)) -> PartialConfig {
    let mut p = PartialConfig::empty();
    f(&mut p);
    p
}

#[test]
fn test_cli_overrides_workspace() {
    let cli = with(|p| {
        p.model = Some("gpt4".to_string());
        p.shell_timeout_secs = Some(60);
    });
    let workspace = with(|p| {
        p.model = Some("llama3".to_string());
        p.shell_timeout_secs = Some(10);
        p.context_limit = Some(16384);
    });

    let merged = cli.with_fallback(workspace);
    assert_eq!(merged.model.as_deref(), Some("gpt4"), "CLI model should override workspace");
    assert_eq!(merged.shell_timeout_secs, Some(60), "CLI timeout should override workspace");
    assert_eq!(merged.context_limit, Some(16384), "Workspace context_limit should be preserved");
}

#[test]
fn test_workspace_overrides_global() {
    let workspace = with(|p| {
        p.model = Some("mistral".to_string());
        p.workspace = Some("/tmp/ws".to_string());
    });
    let global = with(|p| {
        p.model = Some("llama3.2".to_string());
        p.workspace = Some("/home/user/workspace".to_string());
        p.shell_timeout_secs = Some(45);
    });

    let merged = workspace.with_fallback(global);
    assert_eq!(merged.model.as_deref(), Some("mistral"));
    assert_eq!(merged.workspace.as_deref(), Some("/tmp/ws"));
    assert_eq!(merged.shell_timeout_secs, Some(45));
}

#[test]
fn test_defaults_apply_when_no_config() {
    let config = PartialConfig::empty().finalize();
    assert_eq!(config.model, "llama3.2");
    assert_eq!(config.workspace, "./workspace");
    assert_eq!(config.shell_timeout_secs, 30);
    assert_eq!(config.context_limit, 32768);
    assert!(!config.blocked_patterns.is_empty(), "Default blocklist should be non-empty");
    assert_eq!(config.security_log_path, "./workspace/security.log");
}

#[test]
fn test_blocked_patterns_replace_semantics() {
    let workspace = with(|p| {
        p.blocked_patterns = Some(vec![("custom_pattern".to_string(), "custom reason".to_string())]);
    });
    let global = with(|p| {
        p.blocked_patterns = Some(vec![
            ("global_pattern_1".to_string(), "global reason 1".to_string()),
            ("global_pattern_2".to_string(), "global reason 2".to_string()),
        ]);
    });

    let merged = workspace.with_fallback(global);
    let patterns = merged.blocked_patterns.unwrap();
    assert_eq!(patterns.len(), 1, "Workspace blocklist should replace global entirely");
    assert_eq!(patterns[0].0, "custom_pattern");
}

#[test]
fn test_three_layer_merge() {
    let cli = with(|p| {
        p.model = Some("cli-model".to_string());
    });
    let workspace = with(|p| {
        p.shell_timeout_secs = Some(20);
        p.context_limit = Some(8192);
    });
    let global = with(|p| {
        p.model = Some("global-model".to_string());
        p.workspace = Some("/global/ws".to_string());
        p.shell_timeout_secs = Some(60);
    });

    let config = cli.with_fallback(workspace).with_fallback(global).finalize();
    assert_eq!(config.model, "cli-model");
    assert_eq!(config.workspace, "/global/ws");
    assert_eq!(config.shell_timeout_secs, 20);
    assert_eq!(config.context_limit, 8192);
}

#[test]
fn test_security_log_defaults_to_workspace() {
    let config = with(|p| {
        p.workspace = Some("/my/workspace".to_string());
    }).finalize();
    assert_eq!(config.security_log_path, "/my/workspace/security.log");
}

#[test]
fn test_explicit_security_log_overrides_default() {
    let config = with(|p| {
        p.workspace = Some("/my/workspace".to_string());
        p.security_log_path = Some("/var/log/agent.log".to_string());
    }).finalize();
    assert_eq!(config.security_log_path, "/var/log/agent.log");
}

#[test]
fn test_context_config_defaults() {
    let config = PartialConfig::empty().finalize();
    assert_eq!(config.soft_threshold_permille, 700);
    assert_eq!(config.hard_threshold_permille, 900);
    assert_eq!(config.carryover_turns, 5);
    assert_eq!(config.max_restarts, None, "max_restarts should default to none (unlimited)");
    assert!(config.auto_restart, "auto_restart should default to true");
    assert_eq!(config.max_sleep_duration_secs, 3600);
    assert_eq!(config.ddg_rate_limit_ms, 2000);
    assert_eq!(config.brave_rate_limit_ms, 1000);
    assert_eq!(config.brave_api_key, None);
}

#[test]
fn web_and_sleep_knobs_merge_like_the_rest() {
    let workspace = with(|p| {
        p.max_sleep_duration_secs = Some(120);
        p.brave_api_key = Some(Some("key-a".to_string()));
    });
    let global = with(|p| {
        p.max_sleep_duration_secs = Some(600);
        p.ddg_rate_limit_ms = Some(5000);
    });
    let config = workspace.with_fallback(global).finalize();
    assert_eq!(config.max_sleep_duration_secs, 120);
    assert_eq!(config.ddg_rate_limit_ms, 5000);
    assert_eq!(config.brave_api_key.as_deref(), Some("key-a"));
}

#[test]
fn test_context_config_override() {
    let config = with(|p| {
        p.soft_threshold_permille = Some(600);
        p.hard_threshold_permille = Some(850);
        p.carryover_turns = Some(10);
        p.max_restarts = Some(Some(3));
        p.auto_restart = Some(false);
    }).finalize();
    assert_eq!(config.soft_threshold_permille, 600);
    assert_eq!(config.hard_threshold_permille, 850);
    assert_eq!(config.carryover_turns, 10);
    assert_eq!(config.max_restarts, Some(3));
    assert!(!config.auto_restart);
}

#[test]
fn test_context_config_merge_layers() {
    let cli = with(|p| {
        p.soft_threshold_permille = Some(500);
    });
    let workspace = with(|p| {
        p.soft_threshold_permille = Some(600);
        p.hard_threshold_permille = Some(850);
        p.carryover_turns = Some(10);
    });
    let global = with(|p| {
        p.soft_threshold_permille = Some(750);
        p.hard_threshold_permille = Some(950);
        p.carryover_turns = Some(3);
        p.max_restarts = Some(Some(5));
        p.auto_restart = Some(false);
    });

    let config = cli.with_fallback(workspace).with_fallback(global).finalize();
    assert_eq!(config.soft_threshold_permille, 500, "CLI soft threshold should win");
    assert_eq!(config.hard_threshold_permille, 850, "Workspace hard threshold should win over global");
    assert_eq!(config.carryover_turns, 10);
    assert_eq!(config.max_restarts, Some(5));
    assert!(!config.auto_restart);
}

#[test]
fn restart_decision_follows_policy() {
    assert_eq!(restart_decision(1, None, true), RestartDecision::Restart);
    assert_eq!(restart_decision(3, Some(3), true), RestartDecision::Stop);
    assert_eq!(restart_decision(2, Some(3), false), RestartDecision::AskOperator);
}
