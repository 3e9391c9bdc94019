use ouro::context::{ContextAction, ContextManager, MASK_BATCH_SIZE};
use ouro::carryover::extract_carryover;
use ouro::masking::{
    generate_mask_notification, generate_placeholder, is_already_masked, mask_oldest_observations,
};
use ouro::message::{ChatMessage, ChatRole, MessageContent, ToolCall, ToolResponse};

fn tool_call(call_id: &str, fn_name: &str) -> ToolCall {
    ToolCall {
        call_id: call_id.to_string(),
        fn_name: fn_name.to_string(),
        fn_arguments: "{}".to_string(),
    }
}

fn tool_response(call_id: &str, content: &str) -> ChatMessage {
    ChatMessage::from_tool_response(ToolResponse {
        call_id: call_id.to_string(),
        content: content.to_string(),
    })
}

fn response_content(m: &ChatMessage) -> &str {
    match &m.content {
        MessageContent::ToolResponse(tr) => tr.content.as_str(),
        _ => panic!("not a tool response"),
    }
}

#[test]
fn test_continue_when_under_soft_threshold() {
    let mut cm = ContextManager::new(1000, 700, 900, 5);
    cm.update_token_usage(500, 10);
    assert_eq!(cm.evaluate(), ContextAction::Continue);
}

#[test]
fn test_mask_when_at_soft_threshold() {
    let mut cm = ContextManager::new(1000, 700, 900, 5);
    cm.update_token_usage(750, 10);
    let action = cm.evaluate();
    assert!(
        matches!(action, ContextAction::Mask { count } if count == MASK_BATCH_SIZE),
        "Expected Mask, got {:?}",
        action
    );
}

#[test]
fn test_winddown_when_at_hard_threshold() {
    let mut cm = ContextManager::new(1000, 700, 900, 5);
    cm.update_token_usage(920, 10);
    assert_eq!(cm.evaluate(), ContextAction::WindDown);
    assert!(cm.wind_down_sent);
}

#[test]
fn test_restart_after_winddown() {
    let mut cm = ContextManager::new(1000, 700, 900, 5);
    cm.update_token_usage(920, 10);
    assert_eq!(cm.evaluate(), ContextAction::WindDown);
    assert_eq!(cm.evaluate(), ContextAction::Restart);
}

#[test]
fn test_fallback_char_heuristic() {
    // Without token data, 2000 chars stand for 500 tokens: half of 1000.
    let mut cm = ContextManager::new(1000, 700, 900, 5);
    cm.add_chars(2000);
    assert_eq!(cm.usage_permille(), 500);
    assert_eq!(cm.evaluate(), ContextAction::Continue);
}

#[test]
fn test_prompt_tokens_not_additive() {
    let mut cm = ContextManager::new(1000, 700, 900, 5);
    cm.update_token_usage(300, 10);
    cm.update_token_usage(500, 20);
    assert_eq!(cm.prompt_tokens(), 500);
    assert_eq!(cm.completion_tokens_total, 30);
}

#[test]
fn threshold_sequence_walks_all_actions() {
    let mut cm = ContextManager::new(1000, 700, 900, 5);
    cm.update_token_usage(500, 10);
    assert_eq!(cm.evaluate(), ContextAction::Continue);
    cm.update_token_usage(750, 10);
    assert_eq!(cm.evaluate(), ContextAction::Mask { count: 3 });
    cm.update_token_usage(920, 10);
    assert_eq!(cm.evaluate(), ContextAction::WindDown);
    assert_eq!(cm.evaluate(), ContextAction::Restart);
}

#[test]
fn prepare_restart_resets_counters() {
    let mut cm = ContextManager::new(1000, 700, 900, 5);
    cm.update_token_usage(920, 10);
    cm.increment_turn();
    assert_eq!(cm.evaluate(), ContextAction::WindDown);
    cm.prepare_restart();
    assert_eq!(cm.session_number(), 2);
    assert_eq!(cm.prompt_tokens(), 0);
    assert_eq!(cm.turn_count(), 0);
    assert_eq!(cm.masked_count(), 0);
    assert!(!cm.wind_down_sent);
}

// -- Masking ----------------------------------------------------------------

#[test]
fn test_generate_placeholder_file_read() {
    let content = "line one of the file\nline two\nline three\n";
    let placeholder = generate_placeholder("file_read", content);
    assert!(placeholder.starts_with('['));
    assert!(placeholder.contains("masked"));
    assert!(placeholder.contains("3 lines"));
    assert!(placeholder.contains("starts with: line one of the file"));
}

#[test]
fn test_generate_placeholder_shell_exec_json() {
    let content = r#"{"exit_code":0,"stdout":"hello world","stderr":""}"#;
    let placeholder = generate_placeholder("shell_exec", content);
    assert!(placeholder.starts_with('['));
    assert!(placeholder.contains("masked"));
    assert!(placeholder.contains("exit_code=0"));
    assert!(placeholder.contains("stdout=11 bytes"));
}

#[test]
fn test_generate_placeholder_shell_exec_plain() {
    let content = "some plain text output that is not json";
    let placeholder = generate_placeholder("shell_exec", content);
    assert!(placeholder.starts_with('['));
    assert!(placeholder.contains("masked"));
    assert!(placeholder.contains("bytes of output"));
}

#[test]
fn test_is_already_masked() {
    assert!(is_already_masked("[file_read result masked -- 10 lines, starts with: foo]"));
    assert!(is_already_masked("[shell_exec result masked -- exit_code=0, stdout=5 bytes]"));
    assert!(!is_already_masked("some normal tool output"));
    assert!(!is_already_masked("this contains masked but no bracket"));
}

#[test]
fn test_mask_oldest_observations_walks_oldest_first() {
    let mut cm = ContextManager::new(1000, 700, 900, 5);

    let assistant_msg = ChatMessage::from_tool_calls(vec![
        tool_call("call_1", "file_read"),
        tool_call("call_2", "shell_exec"),
    ]);
    let tool_resp_1 = tool_response("call_1", "line1\nline2\nline3\n");
    let tool_resp_2 = tool_response("call_2", r#"{"exit_code":0,"stdout":"file.txt","stderr":""}"#);

    let mut messages = vec![assistant_msg, tool_resp_1, tool_resp_2];

    let result = mask_oldest_observations(&mut messages, 1, &mut cm);
    assert_eq!(result.masked_count, 1);
    assert_eq!(result.total_masked, 1);
    assert_eq!(cm.masked_count(), 1);

    let content = response_content(&messages[1]);
    assert!(is_already_masked(content), "Expected masked, got: {}", content);
    assert!(content.contains("file_read"));
    assert!(content.contains("3 lines"));

    let content2 = response_content(&messages[2]);
    assert!(!is_already_masked(content2));

    let result2 = mask_oldest_observations(&mut messages, 1, &mut cm);
    assert_eq!(result2.masked_count, 1);
    assert_eq!(result2.total_masked, 2);

    let content2_after = response_content(&messages[2]);
    assert!(is_already_masked(content2_after));
    assert!(content2_after.contains("shell_exec"));
}

#[test]
fn test_mask_skips_already_masked() {
    let mut cm = ContextManager::new(1000, 700, 900, 5);
    let already_masked = tool_response("call_1", "[file_read result masked -- 5 lines, starts with: foo]");
    let mut messages = vec![already_masked];

    let result = mask_oldest_observations(&mut messages, 1, &mut cm);
    assert_eq!(result.masked_count, 0);
    assert_eq!(result.total_masked, 0);
}

#[test]
fn test_generate_mask_notification() {
    let notification = generate_mask_notification(3, 10, 15);
    assert_eq!(
        notification,
        "[Context compressed: 3 observations masked this round, 10 total, ~15% context reclaimed]"
    );
}

#[test]
fn masking_round_produces_exact_placeholders() {
    let mut cm = ContextManager::new(1000, 700, 900, 5);
    let mut history = vec![
        ChatMessage::from_tool_calls(vec![tool_call("c1", "file_read")]),
        tool_response("c1", "line1\nline2\nline3\n"),
        ChatMessage::from_tool_calls(vec![tool_call("c2", "shell_exec")]),
        tool_response("c2", r#"{"exit_code":0,"stdout":"file.txt","stderr":""}"#),
    ];

    let first = mask_oldest_observations(&mut history, 1, &mut cm);
    assert_eq!(first.masked_count, 1);
    assert_eq!(
        response_content(&history[1]),
        "[file_read result masked — 3 lines, starts with: line1]"
    );
    assert_eq!(
        response_content(&history[3]),
        r#"{"exit_code":0,"stdout":"file.txt","stderr":""}"#
    );

    let second = mask_oldest_observations(&mut history, 1, &mut cm);
    assert_eq!(second.masked_count, 1);
    assert_eq!(
        response_content(&history[3]),
        "[shell_exec result masked — exit_code=0, stdout=8 bytes]"
    );
    assert_eq!(history.len(), 4);
}

#[test]
fn mask_with_no_tool_responses_masks_nothing() {
    let mut cm = ContextManager::new(1000, 700, 900, 5);
    let mut history = vec![
        ChatMessage::system("prompt".to_string()),
        ChatMessage::assistant("thinking".to_string()),
    ];
    let result = mask_oldest_observations(&mut history, 3, &mut cm);
    assert_eq!(result.masked_count, 0);
    assert_eq!(history.len(), 2);
}

#[test]
fn remasking_after_full_round_masks_nothing_new() {
    let mut cm = ContextManager::new(1000, 700, 900, 5);
    let mut history = vec![
        ChatMessage::from_tool_calls(vec![tool_call("c1", "file_read")]),
        tool_response("c1", "alpha\nbeta\n"),
        tool_response("c2", "gamma"),
    ];
    // A budget above the number of observations masks everything.
    let first = mask_oldest_observations(&mut history, 3, &mut cm);
    assert_eq!(first.masked_count, 2);

    let snapshot: Vec<String> = history.iter().map(|m| response_or_text(m)).collect();
    let second = mask_oldest_observations(&mut history, 3, &mut cm);
    assert_eq!(second.masked_count, 0);
    let after: Vec<String> = history.iter().map(|m| response_or_text(m)).collect();
    assert_eq!(snapshot, after);
}

fn response_or_text(m: &ChatMessage) -> String {
    match &m.content {
        MessageContent::ToolResponse(tr) => tr.content.clone(),
        MessageContent::Text(t) => t.clone(),
        MessageContent::ToolCalls(_) => "(calls)".to_string(),
    }
}

// -- Carryover ----------------------------------------------------------------

#[test]
fn extract_carryover_returns_empty_for_zero_turns() {
    let messages = vec![ChatMessage::system("hello".to_string())];
    let result = extract_carryover(messages, 0);
    assert!(result.is_empty());
}

#[test]
fn extract_carryover_returns_empty_for_empty_messages() {
    let result = extract_carryover(Vec::new(), 3);
    assert!(result.is_empty());
}

#[test]
fn extract_carryover_preserves_complete_turns() {
    let messages = vec![
        ChatMessage::system("system prompt".to_string()),
        ChatMessage::assistant("I will help.".to_string()),
        ChatMessage::assistant("Working on it...".to_string()),
        ChatMessage::assistant("Done with the task.".to_string()),
    ];

    let result = extract_carryover(messages, 1);
    assert!(!result.is_empty());
    let last = result.last().unwrap();
    assert_eq!(last.role, ChatRole::Assistant);
}

#[test]
fn extract_carryover_does_not_split_tool_call_pairs() {
    let messages = vec![
        ChatMessage::system("system prompt".to_string()),
        ChatMessage::assistant("First text response.".to_string()),
        ChatMessage::from_tool_calls(vec![tool_call("c1", "file_read")]),
        tool_response("c1", "file contents"),
        ChatMessage::assistant("Got the file.".to_string()),
    ];

    let result = extract_carryover(messages, 1);
    assert!(!result.is_empty());

    let has_tool = result.iter().any(|m| m.role == ChatRole::Tool);
    let has_assistant_tool_call = result.iter().any(|m| {
        m.role == ChatRole::Assistant
            && matches!(&m.content, MessageContent::ToolCalls(c) if !c.is_empty())
    });
    if has_tool {
        assert!(has_assistant_tool_call, "Tool response in carryover without its tool call");
    }
}

#[test]
fn carryover_never_begins_with_tool_response() {
    // A history with no turn boundary falls back to the last few messages;
    // the tail must begin past any leading tool responses.
    let messages = vec![
        ChatMessage::from_tool_calls(vec![tool_call("c1", "shell_exec")]),
        tool_response("c1", "out1"),
        tool_response("c2", "out2"),
        tool_response("c3", "out3"),
        tool_response("c4", "out4"),
    ];
    let result = extract_carryover(messages, 1);
    if let Some(first) = result.first() {
        assert_ne!(first.role, ChatRole::Tool);
    }
}

#[test]
fn restart_yields_usable_carryover() {
    // A session that ends in Restart hands a tail whose first message is a
    // user or system message or a turn boundary, and the next session's
    // history starts from the system prompt plus that tail.
    let mut cm = ContextManager::new(1000, 700, 900, 2);
    cm.update_token_usage(950, 10);
    assert_eq!(cm.evaluate(), ContextAction::WindDown);
    assert_eq!(cm.evaluate(), ContextAction::Restart);

    let history = vec![
        ChatMessage::system("system prompt".to_string()),
        ChatMessage::user("please begin".to_string()),
        ChatMessage::assistant("Starting now.".to_string()),
        ChatMessage::from_tool_calls(vec![tool_call("c1", "shell_exec")]),
        tool_response("c1", "ok"),
        ChatMessage::assistant("All done.".to_string()),
    ];
    let carryover = extract_carryover(history, 2);
    assert!(!carryover.is_empty());
    let first = carryover.first().unwrap();
    assert!(first.role == ChatRole::User || first.role == ChatRole::System
        || (first.role == ChatRole::Assistant));
    assert_ne!(first.role, ChatRole::Tool);
    // Every invocation in the tail keeps its response in the tail.
    for (i, m) in carryover.iter().enumerate() {
        if let MessageContent::ToolCalls(calls) = &m.content {
            for (k, c) in calls.iter().enumerate() {
                let resp = &carryover[i + 1 + k];
                match &resp.content {
                    MessageContent::ToolResponse(tr) => assert_eq!(tr.call_id, c.call_id),
                    _ => panic!("invocation without its response in the tail"),
                }
            }
        }
    }

    cm.prepare_restart();
    assert_eq!(cm.session_number(), 2);
    let mut next_history = vec![ChatMessage::system("system prompt".to_string())];
    next_history.extend(carryover);
    assert!(next_history.len() >= 2);
}
