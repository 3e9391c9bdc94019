use ouro::discovery::{discovery_file_path, Discovery};
use ouro::search::{assemble_results, maybe_truncate, results_to_json, SearchResult};
use ouro::tools::{
    error_payload, flagged_payload, killed_payload, route_tool, sleep_payload, spawned_payload,
    tool_descriptions, unknown_tool_error, written_bytes_payload, written_payload, ToolRoute,
};
use ouro::workspace::{TargetResolution, WorkspaceGuard};

#[test]
fn tool_descriptions_contains_all_tools() {
    let desc = tool_descriptions();
    assert!(desc.contains("### shell_exec"));
    assert!(desc.contains("### file_read"));
    assert!(desc.contains("### file_write"));
    assert!(desc.contains("### spawn_llm_session"));
    assert!(desc.contains("### spawn_background_task"));
    assert!(desc.contains("### agent_status"));
    assert!(desc.contains("### agent_result"));
    assert!(desc.contains("### kill_agent"));
    assert!(desc.contains("### write_stdin"));
    assert!(desc.contains("### web_fetch"));
    assert!(desc.contains("### web_search"));
    assert!(desc.contains("### sleep"));
    assert!(desc.contains("### flag_discovery"));
}

#[test]
fn route_tool_recognizes_every_tool() {
    assert_eq!(route_tool("shell_exec"), ToolRoute::ShellExec);
    assert_eq!(route_tool("file_read"), ToolRoute::FileRead);
    assert_eq!(route_tool("file_write"), ToolRoute::FileWrite);
    assert_eq!(route_tool("spawn_llm_session"), ToolRoute::SpawnLlmSession);
    assert_eq!(route_tool("spawn_background_task"), ToolRoute::SpawnBackgroundTask);
    assert_eq!(route_tool("agent_status"), ToolRoute::AgentStatus);
    assert_eq!(route_tool("agent_result"), ToolRoute::AgentResult);
    assert_eq!(route_tool("kill_agent"), ToolRoute::KillAgent);
    assert_eq!(route_tool("write_stdin"), ToolRoute::WriteStdin);
    assert_eq!(route_tool("web_fetch"), ToolRoute::WebFetch);
    assert_eq!(route_tool("web_search"), ToolRoute::WebSearch);
    assert_eq!(route_tool("sleep"), ToolRoute::Sleep);
    assert_eq!(route_tool("flag_discovery"), ToolRoute::FlagDiscovery);
    assert_eq!(route_tool("nonexistent_tool"), ToolRoute::Unknown);
}

#[test]
fn unknown_tool_error_names_the_tool() {
    let payload = unknown_tool_error("nonexistent_tool");
    let parsed: serde_json::Value = serde_json::from_str(&payload).unwrap();
    assert_eq!(parsed["error"], "Unknown tool: nonexistent_tool");
}

#[test]
fn error_payload_wraps_message() {
    let payload = error_payload("file_read: missing or invalid 'path' argument".to_string());
    let parsed: serde_json::Value = serde_json::from_str(&payload).unwrap();
    assert!(parsed["error"].as_str().unwrap().contains("missing"));
}

#[test]
fn success_payloads_parse_as_json() {
    let written: serde_json::Value =
        serde_json::from_str(&written_payload(15, "output.txt")).unwrap();
    assert_eq!(written["written_bytes"], 15);
    assert_eq!(written["path"], "output.txt");

    let spawned: serde_json::Value = serde_json::from_str(&spawned_payload("id-1")).unwrap();
    assert_eq!(spawned["agent_id"], "id-1");
    assert_eq!(spawned["status"], "spawned");

    let killed: serde_json::Value = serde_json::from_str(&killed_payload()).unwrap();
    assert_eq!(killed["killed"], true);

    let wb: serde_json::Value = serde_json::from_str(&written_bytes_payload(6)).unwrap();
    assert_eq!(wb["written_bytes"], 6);

    let fl: serde_json::Value =
        serde_json::from_str(&flagged_payload("Found it", "2026-02-04T10:00:00Z")).unwrap();
    assert_eq!(fl["flagged"], true);
    assert_eq!(fl["title"], "Found it");

    let sl: serde_json::Value = serde_json::from_str(&sleep_payload("timer (30s)", 30)).unwrap();
    assert_eq!(sl["sleep_requested"], true);
    assert_eq!(sl["max_duration_secs"], 30);
}

// -- Discovery ------------------------------------------------------------------

#[test]
fn discovery_file_path_is_in_workspace() {
    let path = discovery_file_path("/tmp/my-workspace");
    assert_eq!(path, "/tmp/my-workspace/.ouro-discoveries.jsonl");
}

#[test]
fn discovery_serializes_to_one_json_line() {
    let d = Discovery {
        timestamp: "2026-02-04T10:00:00Z".to_string(),
        title: "Found Makefile".to_string(),
        description: "Project root contains build targets".to_string(),
    };
    let line = d.to_json();
    assert!(!line.contains('\n'));
    let parsed: serde_json::Value = serde_json::from_str(&line).unwrap();
    assert_eq!(parsed["title"], "Found Makefile");
    assert_eq!(parsed["description"], "Project root contains build targets");
    assert_eq!(parsed["timestamp"], "2026-02-04T10:00:00Z");
}

// -- Web fetch truncation ---------------------------------------------------------

#[test]
fn truncate_within_limit() {
    let result = maybe_truncate("hello world", Some(100));
    assert_eq!(result, "hello world");
}

#[test]
fn truncate_at_limit() {
    let result = maybe_truncate("hello world", Some(5));
    assert!(result.starts_with("hello"));
    assert!(result.contains("[truncated at 5 chars, total 11]"));
}

#[test]
fn truncate_none_returns_full() {
    let result = maybe_truncate("hello world", None);
    assert_eq!(result, "hello world");
}

// -- Search assembly -------------------------------------------------------------

#[test]
fn assemble_results_trims_skips_and_pairs() {
    let links = vec![
        ("https://example.com".to_string(), " Example Title ".to_string()),
        ("".to_string(), "No URL".to_string()),
        ("https://other.com".to_string(), "Other Result".to_string()),
    ];
    let snippets = vec![
        " This is a snippet ".to_string(),
        "skipped".to_string(),
        "Another snippet".to_string(),
    ];
    let results = assemble_results(&links, &snippets, 10);
    assert_eq!(results.len(), 2);
    assert_eq!(results[0].title, "Example Title");
    assert_eq!(results[0].url, "https://example.com");
    assert_eq!(results[0].snippet, "This is a snippet");
    assert_eq!(results[1].title, "Other Result");
    assert_eq!(results[1].snippet, "Another snippet");
}

#[test]
fn assemble_results_respects_count_limit() {
    let links = vec![
        ("https://a.com".to_string(), "A".to_string()),
        ("https://b.com".to_string(), "B".to_string()),
        ("https://c.com".to_string(), "C".to_string()),
    ];
    let snippets = vec!["Snippet A".to_string(), "Snippet B".to_string(), "Snippet C".to_string()];
    let results = assemble_results(&links, &snippets, 2);
    assert_eq!(results.len(), 2);
    assert_eq!(results[0].title, "A");
    assert_eq!(results[1].title, "B");
}

#[test]
fn search_result_serializes_to_json() {
    let results = vec![SearchResult {
        title: "Test".to_string(),
        url: "https://example.com".to_string(),
        snippet: "A test result".to_string(),
    }];
    let json = results_to_json(&results);
    assert!(json.contains("\"title\":\"Test\""));
    assert!(json.contains("\"url\":\"https://example.com\""));
    assert!(json.contains("\"snippet\":\"A test result\""));
    let parsed: serde_json::Value = serde_json::from_str(&json).unwrap();
    assert_eq!(parsed[0]["title"], "Test");
}

// -- Workspace guard ---------------------------------------------------------------

fn comps(items: &[&str]) -> Vec<String> {
    items.iter().map(|s| s.to_string()).collect()
}

#[test]
fn write_inside_workspace_is_allowed() {
    let guard = WorkspaceGuard::from_canonical_root(comps(&["tmp", "W"]));
    let target = TargetResolution::Exists { canonical: comps(&["tmp", "W", "a"]) };
    assert!(guard.is_write_allowed(&target));
    let new_file = TargetResolution::ParentExists {
        canonical_parent: comps(&["tmp", "W", "a"]),
        file_name: "b.txt".to_string(),
    };
    assert!(guard.is_write_allowed(&new_file));
}

#[test]
fn write_to_workspace_root_itself_is_allowed() {
    let guard = WorkspaceGuard::from_canonical_root(comps(&["tmp", "W"]));
    let target = TargetResolution::Exists { canonical: comps(&["tmp", "W"]) };
    assert!(guard.is_write_allowed(&target));
}

#[test]
fn escape_via_parent_segments_is_rejected() {
    // The canonicalization of a path under `..` lands outside the root.
    let guard = WorkspaceGuard::from_canonical_root(comps(&["tmp", "W"]));
    let target = TargetResolution::ParentExists {
        canonical_parent: comps(&["tmp"]),
        file_name: "escape.txt".to_string(),
    };
    assert!(!guard.is_write_allowed(&target));
}

#[test]
fn symlink_resolving_outside_is_rejected() {
    // A link inside the workspace that points outside canonicalizes to the
    // outside path, which fails the prefix check.
    let guard = WorkspaceGuard::from_canonical_root(comps(&["tmp", "W"]));
    let target = TargetResolution::Exists { canonical: comps(&["tmp", "outside.txt"]) };
    assert!(!guard.is_write_allowed(&target));
}

#[test]
fn missing_parent_is_rejected() {
    let guard = WorkspaceGuard::from_canonical_root(comps(&["tmp", "W"]));
    assert!(!guard.is_write_allowed(&TargetResolution::ParentMissing));
}

#[test]
fn sibling_with_root_prefix_name_is_rejected() {
    // Component-wise comparison: `/tmp/Wx` does not start with `/tmp/W`.
    let guard = WorkspaceGuard::from_canonical_root(comps(&["tmp", "W"]));
    let target = TargetResolution::Exists { canonical: comps(&["tmp", "Wx", "f"]) };
    assert!(!guard.is_write_allowed(&target));
}

// -- Provider HTML extraction -----------------------------------------------------

#[test]
fn parse_ddg_empty_html() {
    let results = ouro::search::parse_ddg_lite_html("<html><body></body></html>", 10);
    assert!(results.is_empty());
}

#[test]
fn parse_ddg_with_results() {
    let html = r#"
    <html><body>
    <table>
        <tr>
            <td><a class="result-link" href="https://example.com">Example Title</a></td>
        </tr>
        <tr>
            <td class="result-snippet">This is a snippet</td>
        </tr>
        <tr>
            <td><a class="result-link" href="https://other.com">Other Result</a></td>
        </tr>
        <tr>
            <td class="result-snippet">Another snippet</td>
        </tr>
    </table>
    </body></html>
    "#;

    let results = ouro::search::parse_ddg_lite_html(html, 10);
    assert_eq!(results.len(), 2);
    assert_eq!(results[0].title, "Example Title");
    assert_eq!(results[0].url, "https://example.com");
    assert_eq!(results[0].snippet, "This is a snippet");
    assert_eq!(results[1].title, "Other Result");
    assert_eq!(results[1].url, "https://other.com");
}

#[test]
fn parse_ddg_respects_count_limit() {
    let html = r#"
    <html><body>
    <table>
        <tr><td><a class="result-link" href="https://a.com">A</a></td></tr>
        <tr><td class="result-snippet">Snippet A</td></tr>
        <tr><td><a class="result-link" href="https://b.com">B</a></td></tr>
        <tr><td class="result-snippet">Snippet B</td></tr>
        <tr><td><a class="result-link" href="https://c.com">C</a></td></tr>
        <tr><td class="result-snippet">Snippet C</td></tr>
    </table>
    </body></html>
    "#;

    let results = ouro::search::parse_ddg_lite_html(html, 2);
    assert_eq!(results.len(), 2);
    assert_eq!(results[0].title, "A");
    assert_eq!(results[1].title, "B");
}
