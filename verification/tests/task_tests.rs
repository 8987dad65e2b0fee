use crow_core::agent::{AgentInfo, AgentMode, AgentRegistry};
use crow_core::tools::task::{begin_subagent, start_subagent, subagent_report, TaskRoute, TaskStart, TaskTool};
use crow_core::store::SessionStore;
use crow_core::tools::{MetaValue, ToolStatus};
use crow_core::types::{Message, Part};
use crow_core::tools::info::{Infobox, SearchResult, TaskCompleteTool, WebSearchTool};
use crow_core::types::AgentToolCall;

#[test]
fn task_routes() {
    let registry = AgentRegistry::new();
    assert_eq!(TaskTool::route(&registry, "verified"), Ok(TaskRoute::Verified));
    match TaskTool::route(&registry, "general") {
        Ok(TaskRoute::Agent(a)) => assert_eq!(a.name, "general"),
        other => panic!("unexpected {:?}", other),
    }
    let err = TaskTool::route(&registry, "build").unwrap_err();
    assert_eq!(err, "Agent 'build' cannot be used as a subagent (mode: Primary)");
    let unknown = TaskTool::route(&registry, "nobody").unwrap_err();
    assert!(unknown.starts_with("Unknown agent type: 'nobody'. Available subagents: "));
    assert!(unknown.contains("general"));
}

#[test]
fn task_description_lists_subagents() {
    let registry = AgentRegistry::new();
    let tool = TaskTool::new(&registry.get_subagents());
    assert_eq!(tool.name(), "task");
    assert!(tool.description().contains("- general: "));
    assert!(tool.description().contains("- verified: Agent for tasks requiring verified completion"));
    assert!(!tool.description().contains("{agents}"));
    assert_eq!(TaskTool::child_title("fix bug"), "Subagent: fix bug");
}

#[test]
fn pair_output_reports_result() {
    let calls = vec![AgentToolCall { agent: "executor".to_string(), tool: "read".to_string(), step: 1, duration_ms: 12, success: true }];
    let out = TaskTool::pair_output(true, 2, Some("S"), Some("V"), &calls);
    assert_eq!(out, "\u{2705} Task completed and verified in 2 step(s).\n\n**Summary:** S\n\n**Verification:** V\n\n**Tool calls:**\n- \u{2713} executor/1: read (12ms)\n");
    let failed = TaskTool::pair_output(false, 5, None, None, &vec![]);
    assert!(failed.contains("Task incomplete after 5 step(s)"));
}

#[test]
fn task_complete_output() {
    let out = TaskCompleteTool::output("Implemented fibonacci", "Ran cargo test");
    assert_eq!(out, "Task complete.\n\nSummary: Implemented fibonacci\n\nVerification: Ran cargo test");
    assert_eq!(TaskCompleteTool.name(), "task_complete");
}

#[test]
fn websearch_formats_results() {
    let tool = WebSearchTool::new();
    assert_eq!(tool.name(), "websearch");
    let boxes = vec![Infobox { infobox: "Rust".to_string(), id: "r".to_string(), content: "A language".to_string() }];
    let results = vec![
        SearchResult { url: "u1".to_string(), title: "t1".to_string(), content: "c1".to_string() },
        SearchResult { url: "u2".to_string(), title: "t2".to_string(), content: "c2".to_string() },
    ];
    let out = WebSearchTool::format_results(&boxes, &results, 1);
    assert_eq!(out, "Infobox: Rust\nID: r\nContent: A language\n\nTitle: t1\nURL: u1\nContent: c1\n\n");
    assert_eq!(WebSearchTool::format_results(&vec![], &vec![], 5), "No results found\n");
}

fn registry_with(extra: Vec<AgentInfo>) -> AgentRegistry {
    AgentRegistry::with_loaded_agents(Vec::new(), extra)
}

#[test]
fn test_task_error_invalid_agent_name() {
    let error = TaskTool::route(&AgentRegistry::new(), "invalid-agent").unwrap_err();
    assert!(error.contains("Unknown agent type"));
    assert!(error.contains("invalid-agent"));
}

#[test]
fn test_task_validates_subagent_type() {
    match TaskTool::route(&AgentRegistry::new(), "general") {
        Ok(TaskRoute::Agent(a)) => assert_eq!(a.name, "general"),
        other => panic!("Should recognize 'general' agent, got: {:?}", other),
    }
}

#[test]
fn test_task_rejects_non_subagent_agents() {
    let mut primary_only = AgentInfo::new("primary-only");
    primary_only.mode = AgentMode::Primary;
    primary_only.description = Some("A primary-only agent".to_string());
    let error = TaskTool::route(&registry_with(vec![primary_only]), "primary-only").unwrap_err();
    assert!(error.contains("cannot be used as a subagent"), "got: {}", error);
}

#[test]
fn test_task_agent_list_subagents_only() {
    let error = TaskTool::route(&AgentRegistry::new(), "nonexistent").unwrap_err();
    assert!(error.contains("general"), "Error should list 'general' subagent: {}", error);
    let listed = error.split("Available subagents: ").nth(1).unwrap();
    assert!(!listed.split(", ").any(|n| n == "build" || n == "plan"));
}

#[test]
fn test_task_generates_dynamic_description() {
    let registry = AgentRegistry::new();
    let tool = TaskTool::new(&registry.get_subagents());
    let description = tool.description();
    assert!(description.contains("Launch a new agent"));
    assert!(description.contains("subagent_type"));
    assert!(description.contains("general"));
}

#[test]
fn test_task_agent_description_includes_capabilities() {
    let mut custom = AgentInfo::new("custom-explorer");
    custom.mode = AgentMode::Subagent;
    custom.description = Some("Explores codebases and finds files".to_string());
    let registry = registry_with(vec![custom]);
    let tool = TaskTool::new(&registry.get_subagents());
    let description = tool.description();
    assert!(description.contains("custom-explorer"));
    assert!(description.contains("Explores codebases"));
}

#[test]
fn test_task_tool_name() {
    let tool = TaskTool::new(&AgentRegistry::new().get_subagents());
    assert_eq!(tool.name(), "task");
}

#[test]
fn test_task_complete_success() {
    let out = TaskCompleteTool::output(
        "Implemented fibonacci function with memoization",
        "Ran cargo test - all 5 tests pass including edge cases",
    );
    assert!(out.contains("Task complete"));
    assert!(out.contains("fibonacci"));
    assert!(out.contains("cargo test"));
}

#[test]
fn task_start_creates_the_child_session_with_the_prompt() {
    let mut store = SessionStore::new();
    let registry = AgentRegistry::new();
    let started = start_subagent(
        &mut store,
        &registry,
        "parent-1",
        "proj",
        "/work",
        "Find bugs",
        "Look at main.rs",
        "general",
        "ses-child".to_string(),
        "msg-1".to_string(),
        "part-1".to_string(),
        42,
    );
    match started {
        Ok(TaskStart::Agent { session, agent }) => {
            assert_eq!(agent.name, "general");
            assert_eq!(session.id, "ses-child");
            assert_eq!(session.parent_id, Some("parent-1".to_string()));
            assert_eq!(session.directory, "/work");
            assert_eq!(session.title, "Subagent: Find bugs");
        }
        _ => panic!("expected a child session"),
    }
    let messages = store.get_messages("ses-child").unwrap();
    assert_eq!(messages.len(), 1);
    match &messages[0].info {
        Message::User { id, session_id, .. } => {
            assert_eq!(id, "msg-1");
            assert_eq!(session_id, "ses-child");
        }
        _ => panic!("expected a user message"),
    }
    match &messages[0].parts[0] {
        Part::Text { id, text, .. } => {
            assert_eq!(id, "part-1");
            assert_eq!(text, "Look at main.rs");
        }
        _ => panic!("expected a text part"),
    }
    assert_eq!(store.get("ses-child").unwrap().title, "Subagent: Find bugs");
}

#[test]
fn task_start_refuses_unknown_agents_and_hands_over_verified_tasks() {
    let mut store = SessionStore::new();
    let registry = AgentRegistry::new();
    let ids = || ("c".to_string(), "m".to_string(), "p".to_string());
    let (c, m, p) = ids();
    match start_subagent(&mut store, &registry, "s", "proj", "/w", "d", "x", "nope", c, m, p, 1) {
        Err(r) => {
            assert_eq!(r.status, ToolStatus::Error);
            assert!(r.error.unwrap().starts_with("Unknown agent type: 'nope'. Available subagents: "));
            assert!(r.metadata.is_empty());
        }
        _ => panic!("expected a refusal"),
    }
    let (c, m, p) = ids();
    match start_subagent(&mut store, &registry, "s", "proj", "/w", "d", "x", "build", c, m, p, 1) {
        Err(r) => assert_eq!(r.error.unwrap(), "Agent 'build' cannot be used as a subagent (mode: Primary)"),
        _ => panic!("expected a refusal"),
    }
    let (c, m, p) = ids();
    assert!(matches!(start_subagent(&mut store, &registry, "s", "proj", "/w", "d", "x", "verified", c, m, p, 1), Ok(TaskStart::Verified)));
    assert!(store.list(None).unwrap().is_empty());
}

#[test]
fn task_begin_uses_fresh_ids() {
    let mut store = SessionStore::new();
    let registry = AgentRegistry::new();
    match begin_subagent(&mut store, &registry, "parent", "proj", "/w", "Look", "go", "general") {
        Ok(TaskStart::Agent { session, .. }) => {
            assert!(session.id.starts_with("ses-"));
            assert_eq!(session.title, "Subagent: Look");
            assert_eq!(store.get_messages(&session.id).unwrap().len(), 1);
        }
        _ => panic!("expected a child session"),
    }
}

#[test]
fn subagent_report_gives_text_and_metadata() {
    let parts = vec![
        Part::Text { id: "a".to_string(), session_id: "c".to_string(), message_id: "m".to_string(), text: "one".to_string() },
        Part::Thinking { id: "b".to_string(), session_id: "c".to_string(), message_id: "m".to_string(), text: "hmm".to_string() },
        Part::Text { id: "d".to_string(), session_id: "c".to_string(), message_id: "m".to_string(), text: "two".to_string() },
    ];
    let ok = subagent_report("Find bugs", "general", "ses-c", Ok(parts));
    assert_eq!(ok.status, ToolStatus::Completed);
    assert_eq!(ok.output, "one\ntwo");
    assert_eq!(
        ok.metadata,
        vec![
            ("title".to_string(), MetaValue::Text("Find bugs".to_string())),
            ("sessionId".to_string(), MetaValue::Text("ses-c".to_string())),
            ("subagent".to_string(), MetaValue::Text("general".to_string())),
        ]
    );
    let bad = subagent_report("Find bugs", "general", "ses-c", Err("LLM call failed".to_string()));
    assert_eq!(bad.status, ToolStatus::Error);
    assert_eq!(bad.output, "");
    assert_eq!(bad.error, Some("Subagent execution failed: LLM call failed".to_string()));
    assert_eq!(bad.metadata, vec![("sessionId".to_string(), MetaValue::Text("ses-c".to_string()))]);
}

#[test]
fn verified_report_gives_the_run_and_its_metadata() {
    let run = crow_core::tools::task::PairRun {
        completed: true,
        steps: 2,
        summary: Some("Added X".to_string()),
        verification: Some("Tests pass".to_string()),
        tool_calls: Vec::new(),
        executor_session_id: "ses-e".to_string(),
        arbiter_session_id: "ses-a".to_string(),
        pair_id: "pair-1".to_string(),
        input_tokens: 10,
        output_tokens: 20,
    };
    let r = crow_core::tools::task::verified_report("Do X", Ok(run));
    assert_eq!(r.status, ToolStatus::Completed);
    assert!(r.output.starts_with("\u{2705} Task completed and verified in 2 step(s)."));
    assert_eq!(r.metadata[0], ("title".to_string(), MetaValue::Text("Do X".to_string())));
    assert_eq!(r.metadata[2], ("completed".to_string(), MetaValue::Flag(true)));
    assert_eq!(r.metadata[6], ("pair_id".to_string(), MetaValue::Text("pair-1".to_string())));
    assert_eq!(r.metadata[7], ("summary".to_string(), MetaValue::Text("Added X".to_string())));
    assert_eq!(r.metadata[10], ("total_output_tokens".to_string(), MetaValue::Count(20)));
    let bad = crow_core::tools::task::verified_report("Do X", Err("boom".to_string()));
    assert_eq!(bad.error, Some("Verified agent execution failed: boom".to_string()));
    assert_eq!(bad.metadata, vec![("subagent".to_string(), MetaValue::Text("verified".to_string()))]);
}
