use ouro::registry::{
    token_new, OutputRing, SubAgentKind, SubAgentManager, SubAgentResult, SubAgentStatus,
};
use ouro::snapshot::status_from_json;

fn now() -> String {
    "2026-02-04T10:00:00Z".to_string()
}

fn test_manager() -> SubAgentManager {
    SubAgentManager::new(token_new(), 3, 10)
}

fn llm_kind(model: &str, goal: &str) -> SubAgentKind {
    SubAgentKind::LlmSession { model: model.to_string(), goal: goal.to_string() }
}

fn proc_kind(command: &str) -> SubAgentKind {
    SubAgentKind::BackgroundProcess { command: command.to_string() }
}

#[test]
fn register_succeeds_within_limits() {
    let mut mgr = test_manager();
    let token = mgr.create_child_token(None);
    let result = mgr.register("agent-1".to_string(), llm_kind("qwen2.5:3b", "test"), None, token, now());
    assert!(result.is_ok());
    assert_eq!(mgr.total_count(), 1);
}

#[test]
fn register_fails_when_max_total_exceeded() {
    let mut mgr = SubAgentManager::new(token_new(), 3, 2);

    for i in 0..2 {
        let ct = mgr.create_child_token(None);
        mgr.register(format!("agent-{i}"), proc_kind("sleep 10"), None, ct, now()).unwrap();
    }

    let ct = mgr.create_child_token(None);
    let result = mgr.register("agent-overflow".to_string(), proc_kind("sleep 10"), None, ct, now());
    assert!(result.is_err());
    assert_eq!(result.unwrap_err(), "max total agents reached (2/2)");
    assert_eq!(mgr.total_count(), 2);
}

#[test]
fn fresh_registration_starts_empty() {
    let mut mgr = test_manager();
    let ct = mgr.create_child_token(None);
    mgr.register("fresh".to_string(), llm_kind("m", "g"), None, ct, now()).unwrap();

    let info = mgr.get_status(&"fresh".to_string()).unwrap();
    assert!(matches!(info.status, SubAgentStatus::Running));
    assert_eq!(info.depth, 0);
    assert!(info.parent_id.is_none());
    assert_eq!(info.spawned_at, now());
    assert!(info.completed_at.is_none());
    assert!(mgr.get_result(&"fresh".to_string()).is_none());
}

#[test]
fn register_fails_when_max_depth_exceeded() {
    let mut mgr = SubAgentManager::new(token_new(), 1, 10);

    let ct = mgr.create_child_token(None);
    mgr.register("root".to_string(), llm_kind("m", "g"), None, ct, now()).unwrap();

    let ct = mgr.create_child_token(Some(&"root".to_string()));
    mgr.register("child".to_string(), llm_kind("m", "g"), Some("root".to_string()), ct, now())
        .unwrap();

    let ct = mgr.create_child_token(Some(&"child".to_string()));
    let result = mgr.register(
        "grandchild".to_string(),
        llm_kind("m", "g"),
        Some("child".to_string()),
        ct,
        now(),
    );
    assert!(result.is_err());
    assert!(result.unwrap_err().contains("depth"));
}

#[test]
fn register_rejects_duplicate_id() {
    let mut mgr = test_manager();
    let ct = mgr.create_child_token(None);
    mgr.register("dup".to_string(), proc_kind("true"), None, ct, now()).unwrap();

    let ct = mgr.create_child_token(None);
    let result = mgr.register("dup".to_string(), proc_kind("true"), None, ct, now());
    assert!(result.is_err());
    assert!(result.unwrap_err().contains("already registered"));
}

#[test]
fn register_rejects_unknown_parent() {
    let mut mgr = test_manager();
    let ct = mgr.create_child_token(None);
    let result = mgr.register(
        "orphan".to_string(),
        llm_kind("m", "g"),
        Some("ghost".to_string()),
        ct,
        now(),
    );
    assert!(result.is_err());
    assert!(result.unwrap_err().contains("parent agent not found"));
}

#[test]
fn update_status_changes_info() {
    let mut mgr = test_manager();
    let ct = mgr.create_child_token(None);
    mgr.register("a1".to_string(), proc_kind("echo hi"), None, ct, now()).unwrap();

    assert!(matches!(
        mgr.get_status(&"a1".to_string()).unwrap().status,
        SubAgentStatus::Running
    ));

    mgr.update_status(&"a1".to_string(), SubAgentStatus::Completed, &now());

    let info = mgr.get_status(&"a1".to_string()).unwrap();
    assert!(matches!(info.status, SubAgentStatus::Completed));
    assert!(info.completed_at.is_some());
}

#[test]
fn terminal_status_is_reached_at_most_once() {
    let mut mgr = test_manager();
    let ct = mgr.create_child_token(None);
    mgr.register("a1".to_string(), proc_kind("echo hi"), None, ct, now()).unwrap();

    let first = mgr.update_status(&"a1".to_string(), SubAgentStatus::Completed, &now());
    assert!(first.is_some());
    // A second terminal transition is refused: the entry stays completed.
    let second = mgr.update_status(
        &"a1".to_string(),
        SubAgentStatus::Failed("late".to_string()),
        &now(),
    );
    assert!(second.is_none());
    assert!(matches!(
        mgr.get_status(&"a1".to_string()).unwrap().status,
        SubAgentStatus::Completed
    ));
}

#[test]
fn list_all_returns_all_registered() {
    let mut mgr = test_manager();
    for i in 0..3 {
        let ct = mgr.create_child_token(None);
        mgr.register(format!("a{i}"), proc_kind("true"), None, ct, now()).unwrap();
    }
    let all = mgr.list_all();
    assert_eq!(all.len(), 3);
}

#[test]
fn children_of_returns_correct_children() {
    let mut mgr = test_manager();

    let ct = mgr.create_child_token(None);
    mgr.register("parent".to_string(), llm_kind("m", "g"), None, ct, now()).unwrap();

    for i in 0..2 {
        let ct = mgr.create_child_token(Some(&"parent".to_string()));
        mgr.register(
            format!("child-{i}"),
            llm_kind("m", "g"),
            Some("parent".to_string()),
            ct,
            now(),
        )
        .unwrap();
    }

    let ct = mgr.create_child_token(None);
    mgr.register("other".to_string(), proc_kind("true"), None, ct, now()).unwrap();

    let children = mgr.children_of(&"parent".to_string());
    assert_eq!(children.len(), 2);
    for child in &children {
        assert_eq!(child.parent_id.as_deref(), Some("parent"));
    }
}

#[test]
fn root_agents_returns_only_parentless_entries() {
    let mut mgr = test_manager();

    for i in 0..2 {
        let ct = mgr.create_child_token(None);
        mgr.register(format!("root-{i}"), proc_kind("true"), None, ct, now()).unwrap();
    }

    let ct = mgr.create_child_token(Some(&"root-0".to_string()));
    mgr.register("child".to_string(), llm_kind("m", "g"), Some("root-0".to_string()), ct, now())
        .unwrap();

    let roots = mgr.root_agents();
    assert_eq!(roots.len(), 2);
    for root in &roots {
        assert!(root.parent_id.is_none());
    }
}

#[test]
fn cancel_agent_sets_status_to_killed() {
    let mut mgr = test_manager();
    let ct = mgr.create_child_token(None);
    mgr.register("victim".to_string(), proc_kind("sleep 999"), None, ct, now()).unwrap();

    assert!(mgr.cancel_agent(&"victim".to_string(), &now()));

    let info = mgr.get_status(&"victim".to_string()).unwrap();
    assert!(matches!(info.status, SubAgentStatus::Killed));
    assert!(info.completed_at.is_some());
}

#[test]
fn cancel_nonexistent_returns_false() {
    let mut mgr = test_manager();
    assert!(!mgr.cancel_agent(&"ghost".to_string(), &now()));
}

#[test]
fn create_child_token_creates_proper_hierarchy() {
    let root_token = token_new();
    let mut mgr = SubAgentManager::new(root_token.clone(), 3, 10);

    let parent_ct = mgr.create_child_token(None);
    mgr.register("parent".to_string(), llm_kind("m", "g"), None, parent_ct, now()).unwrap();

    let child_ct = mgr.create_child_token(Some(&"parent".to_string()));

    assert!(!child_ct.is_cancelled());
    root_token.cancel();
    assert!(child_ct.is_cancelled());
}

#[test]
fn depth_of_returns_correct_depth() {
    let mut mgr = test_manager();

    let ct = mgr.create_child_token(None);
    mgr.register("root".to_string(), llm_kind("m", "g"), None, ct, now()).unwrap();

    let ct = mgr.create_child_token(Some(&"root".to_string()));
    mgr.register("child".to_string(), llm_kind("m", "g"), Some("root".to_string()), ct, now())
        .unwrap();

    assert_eq!(mgr.depth_of(&"root".to_string()), Some(0));
    assert_eq!(mgr.depth_of(&"child".to_string()), Some(1));
    assert_eq!(mgr.depth_of(&"missing".to_string()), None);
}

#[test]
fn set_and_get_result() {
    let mut mgr = test_manager();
    let ct = mgr.create_child_token(None);
    mgr.register("a1".to_string(), llm_kind("m", "g"), None, ct, now()).unwrap();

    assert!(mgr.get_result(&"a1".to_string()).is_none());

    let result = SubAgentResult {
        agent_id: "a1".to_string(),
        status: "completed".to_string(),
        summary: "did the thing".to_string(),
        output: "detailed output".to_string(),
        files_modified: vec!["foo.rs".to_string()],
        elapsed_ms: 3140,
    };
    mgr.set_result(&"a1".to_string(), result);

    let got = mgr.get_result(&"a1".to_string()).unwrap();
    assert_eq!(got.agent_id, "a1");
    assert_eq!(got.summary, "did the thing");
    assert_eq!(got.files_modified, vec!["foo.rs"]);
}

#[test]
fn output_buffer_read_returns_tail_lines() {
    let mut ring = OutputRing::new(1000);
    for i in 0..10 {
        ring.push_line(format!("line {i}"));
    }
    let lines = ring.tail_lines(3);
    assert_eq!(lines, vec!["line 7", "line 8", "line 9"]);
}

#[test]
fn output_ring_evicts_oldest_at_capacity() {
    let mut ring = OutputRing::new(3);
    for i in 0..5 {
        ring.push_line(format!("line {i}"));
    }
    let lines = ring.tail_lines(10);
    assert_eq!(lines, vec!["line 2", "line 3", "line 4"]);
}

// -- Snapshot JSON --------------------------------------------------------------

#[test]
fn status_json_roundtrips() {
    for status in [
        SubAgentStatus::Running,
        SubAgentStatus::Completed,
        SubAgentStatus::Killed,
        SubAgentStatus::Failed("boom \"quoted\"".to_string()),
    ] {
        let json = status.to_json();
        let back = status_from_json(&json).expect("parses back");
        match (&status, &back) {
            (SubAgentStatus::Running, SubAgentStatus::Running) => {}
            (SubAgentStatus::Completed, SubAgentStatus::Completed) => {}
            (SubAgentStatus::Killed, SubAgentStatus::Killed) => {}
            (SubAgentStatus::Failed(a), SubAgentStatus::Failed(b)) => assert_eq!(a, b),
            other => panic!("status changed through its JSON: {other:?}"),
        }
    }
}

#[test]
fn status_json_matches_serde_conventions() {
    assert_eq!(SubAgentStatus::Running.to_json(), "\"Running\"");
    let failed = SubAgentStatus::Failed("why".to_string()).to_json();
    let parsed: serde_json::Value = serde_json::from_str(&failed).unwrap();
    assert_eq!(parsed["Failed"], "why");
}

#[test]
fn info_json_carries_every_field() {
    let mut mgr = test_manager();
    let ct = mgr.create_child_token(None);
    mgr.register("a1".to_string(), llm_kind("qwen", "fix stuff"), None, ct, now()).unwrap();
    let info = mgr.get_status(&"a1".to_string()).unwrap();
    let parsed: serde_json::Value = serde_json::from_str(&info.to_json()).unwrap();
    assert_eq!(parsed["id"], "a1");
    assert_eq!(parsed["kind"]["LlmSession"]["model"], "qwen");
    assert_eq!(parsed["kind"]["LlmSession"]["goal"], "fix stuff");
    assert_eq!(parsed["parent_id"], serde_json::Value::Null);
    assert_eq!(parsed["status"], "Running");
    assert_eq!(parsed["depth"], 0);
    assert_eq!(parsed["spawned_at"], now().as_str());
}

#[test]
fn result_json_carries_every_field() {
    let result = SubAgentResult {
        agent_id: "a1".to_string(),
        status: "completed".to_string(),
        summary: "sum".to_string(),
        output: "out".to_string(),
        files_modified: vec!["a.rs".to_string(), "b.rs".to_string()],
        elapsed_ms: 250,
    };
    let parsed: serde_json::Value = serde_json::from_str(&result.to_json()).unwrap();
    assert_eq!(parsed["agent_id"], "a1");
    assert_eq!(parsed["files_modified"][1], "b.rs");
    assert_eq!(parsed["elapsed_ms"], 250);
}

#[test]
fn info_json_roundtrips() {
    let mut mgr = SubAgentManager::new(token_new(), 3, 10);
    let ct = mgr.create_child_token(None);
    mgr.register("r1".to_string(), llm_kind("qwen", "fix \"it\"\nnow"), None, ct, now()).unwrap();
    let ct = mgr.create_child_token(Some(&"r1".to_string()));
    mgr.register("c1".to_string(), proc_kind("sleep 5"), Some("r1".to_string()), ct, now())
        .unwrap();
    mgr.update_status(&"c1".to_string(), SubAgentStatus::Failed("exit 2".to_string()), &now());

    for id in ["r1", "c1"] {
        let info = mgr.get_status(&id.to_string()).unwrap();
        let json = info.to_json();
        let back = ouro::snapshot::info_from_json(&json).expect("parses back");
        assert_eq!(back.id, info.id);
        assert_eq!(back.depth, info.depth);
        assert_eq!(back.parent_id, info.parent_id);
        assert_eq!(back.spawned_at, info.spawned_at);
        assert_eq!(back.completed_at, info.completed_at);
        match (&back.kind, &info.kind) {
            (
                SubAgentKind::LlmSession { model: m1, goal: g1 },
                SubAgentKind::LlmSession { model: m2, goal: g2 },
            ) => {
                assert_eq!(m1, m2);
                assert_eq!(g1, g2);
            }
            (
                SubAgentKind::BackgroundProcess { command: c1 },
                SubAgentKind::BackgroundProcess { command: c2 },
            ) => assert_eq!(c1, c2),
            other => panic!("kind changed through its JSON: {other:?}"),
        }
        match (&back.status, &info.status) {
            (SubAgentStatus::Running, SubAgentStatus::Running) => {}
            (SubAgentStatus::Failed(a), SubAgentStatus::Failed(b)) => assert_eq!(a, b),
            (SubAgentStatus::Completed, SubAgentStatus::Completed) => {}
            (SubAgentStatus::Killed, SubAgentStatus::Killed) => {}
            other => panic!("status changed through its JSON: {other:?}"),
        }
    }
    assert!(ouro::snapshot::info_from_json("{\"id\":\"x\"}").is_none());
}
