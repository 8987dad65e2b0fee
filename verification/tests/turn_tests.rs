use crow_core::agent::get_builtin_agents;
use crow_core::react::LlmToolCall;
use crow_core::tools::{completed, failed};
use crow_core::turn::{assistant_message, TurnAction, TurnEvent, TurnState};
use crow_core::types::{Message, Part, ToolState, ToolTime};

fn call(id: &str, name: &str, args: &str) -> LlmToolCall {
    LlmToolCall { id: id.to_string(), name: name.to_string(), arguments: args.to_string() }
}

#[test]
fn turn_asks_the_model_at_most_ten_times() {
    let agent = get_builtin_agents().get("build").unwrap().clone();
    let mut t = TurnState::new("s", "m");
    for _ in 0..10 {
        assert!(matches!(t.next(&agent, TurnEvent::IterationStart { aborted: false }), TurnAction::CallModel));
    }
    match t.next(&agent, TurnEvent::IterationStart { aborted: false }) {
        TurnAction::Finish { shown } => assert!(shown.is_empty()),
        _ => panic!("expected the turn to finish"),
    }
    assert!(t.done);
    assert_eq!(t.iteration, 10);
    assert!(matches!(t.next(&agent, TurnEvent::IterationStart { aborted: false }), TurnAction::Ignore));
}

#[test]
fn turn_stops_when_the_session_is_aborted() {
    let agent = get_builtin_agents().get("build").unwrap().clone();
    let mut t = TurnState::new("s", "m");
    assert!(matches!(t.next(&agent, TurnEvent::IterationStart { aborted: true }), TurnAction::Abort));
    assert!(t.done);
    let mut t = TurnState::new("s", "m");
    t.next(&agent, TurnEvent::IterationStart { aborted: false });
    let ev = TurnEvent::CallRequested { call: call("c1", "read", "{}"), command: None, nonce: "n".to_string(), start: 1, aborted: true };
    assert!(matches!(t.next(&agent, ev), TurnAction::Abort));
    assert!(t.parts.is_empty());
}

#[test]
fn turn_records_a_denied_call_as_an_error_text() {
    let agent = get_builtin_agents().get("plan").unwrap().clone();
    let mut t = TurnState::new("s", "m");
    t.next(&agent, TurnEvent::IterationStart { aborted: false });
    let ev = TurnEvent::CallRequested {
        call: call("c1", "edit", "{}"),
        command: None,
        nonce: "n1".to_string(),
        start: 5,
        aborted: false,
    };
    match t.next(&agent, ev) {
        TurnAction::Reply { call_id, content, shown } => {
            assert_eq!(call_id, "c1");
            assert!(content.starts_with("Error: "));
            match &shown {
                Part::Text { id, session_id, message_id, text } => {
                    assert_eq!(id, "part-error-n1");
                    assert_eq!(session_id, "s");
                    assert_eq!(message_id, "m");
                    assert_eq!(text, &format!("\u{274c} Tool 'edit' denied: {}", &content["Error: ".len()..]));
                }
                _ => panic!("expected a text part"),
            }
            assert_eq!(t.parts, vec![shown]);
        }
        _ => panic!("expected a reply"),
    }
    assert!(t.running.is_none());
}

#[test]
fn turn_shows_a_call_pending_then_completed() {
    let agent = get_builtin_agents().get("build").unwrap().clone();
    let mut t = TurnState::new("s", "m");
    t.next(&agent, TurnEvent::IterationStart { aborted: false });
    let ev = TurnEvent::CallRequested {
        call: call("c2", "read", "{\"filePath\":\"a\"}"),
        command: None,
        nonce: "n2".to_string(),
        start: 10,
        aborted: false,
    };
    match t.next(&agent, ev) {
        TurnAction::RunTool { call_id, tool, shown } => {
            assert_eq!(call_id, "c2");
            assert_eq!(tool, "read");
            assert_eq!(
                shown,
                Part::Tool {
                    id: "part-tool-n2".to_string(),
                    session_id: "s".to_string(),
                    message_id: "m".to_string(),
                    call_id: "c2".to_string(),
                    tool: "read".to_string(),
                    state: ToolState::Pending { input: "{\"filePath\":\"a\"}".to_string(), raw: "{\"filePath\":\"a\"}".to_string() },
                }
            );
        }
        _ => panic!("expected the tool to run"),
    }
    assert!(t.parts.is_empty());
    match t.next(&agent, TurnEvent::ToolFinished { report: completed("text".to_string()), end: 12 }) {
        TurnAction::Reply { call_id, content, shown } => {
            assert_eq!(call_id, "c2");
            assert_eq!(content, "text");
            let expected = Part::Tool {
                id: "part-tool-n2".to_string(),
                session_id: "s".to_string(),
                message_id: "m".to_string(),
                call_id: "c2".to_string(),
                tool: "read".to_string(),
                state: ToolState::Completed {
                    input: "{\"filePath\":\"a\"}".to_string(),
                    output: "text".to_string(),
                    title: "read".to_string(),
                    time: ToolTime { start: 10, end: Some(12) },
                },
            };
            assert_eq!(shown, expected);
            assert_eq!(t.parts, vec![expected]);
        }
        _ => panic!("expected a reply"),
    }
    assert!(matches!(t.next(&agent, TurnEvent::ToolFinished { report: completed(String::new()), end: 13 }), TurnAction::Ignore));
}

#[test]
fn turn_records_a_failed_call_as_completed_with_its_output() {
    let agent = get_builtin_agents().get("build").unwrap().clone();
    let mut t = TurnState::new("s", "m");
    t.next(&agent, TurnEvent::IterationStart { aborted: false });
    let ev = TurnEvent::CallRequested { call: call("c3", "bash", "{}"), command: Some("ls".to_string()), nonce: "n3".to_string(), start: 1, aborted: false };
    assert!(matches!(t.next(&agent, ev), TurnAction::RunTool { .. }));
    match t.next(&agent, TurnEvent::ToolFinished { report: failed("boom".to_string()), end: 2 }) {
        TurnAction::Reply { content, shown, .. } => {
            assert_eq!(content, "");
            match shown {
                Part::Tool { state: ToolState::Completed { input, output, title, time }, .. } => {
                    assert_eq!(input, "{}");
                    assert_eq!(output, "");
                    assert_eq!(title, "bash");
                    assert_eq!(time, ToolTime { start: 1, end: Some(2) });
                }
                _ => panic!("expected a completed state"),
            }
        }
        _ => panic!("expected a reply"),
    }
}

#[test]
fn turn_answer_records_thinking_then_text() {
    let agent = get_builtin_agents().get("build").unwrap().clone();
    let mut t = TurnState::new("s", "m");
    t.next(&agent, TurnEvent::IterationStart { aborted: false });
    let ev = TurnEvent::Answered {
        text_id: "tx".to_string(),
        text: "done".to_string(),
        thinking_id: "th".to_string(),
        reasoning: "hmm".to_string(),
    };
    let expected = vec![
        Part::Thinking { id: "th".to_string(), session_id: "s".to_string(), message_id: "m".to_string(), text: "hmm".to_string() },
        Part::Text { id: "tx".to_string(), session_id: "s".to_string(), message_id: "m".to_string(), text: "done".to_string() },
    ];
    match t.next(&agent, ev) {
        TurnAction::Finish { shown } => assert_eq!(shown, expected),
        _ => panic!("expected the turn to finish"),
    }
    assert_eq!(t.parts, expected);
    assert!(t.done);
}

#[test]
fn turn_answer_without_reasoning_records_only_text() {
    let agent = get_builtin_agents().get("build").unwrap().clone();
    let mut t = TurnState::new("s", "m");
    t.next(&agent, TurnEvent::IterationStart { aborted: false });
    let ev = TurnEvent::Answered { text_id: "tx".to_string(), text: "ok".to_string(), thinking_id: "th".to_string(), reasoning: String::new() };
    t.next(&agent, ev);
    assert_eq!(t.parts, vec![Part::Text { id: "tx".to_string(), session_id: "s".to_string(), message_id: "m".to_string(), text: "ok".to_string() }]);
}

#[test]
fn assistant_message_carries_the_turn() {
    let parts = vec![Part::Text { id: "p".to_string(), session_id: "s".to_string(), message_id: "m".to_string(), text: "x".to_string() }];
    let msg = assistant_message("m", "s", "build", parts.clone(), "model", "prov", "/w", 7, 3, 4, 0);
    assert_eq!(msg.parts, parts);
    match msg.info {
        Message::Assistant { id, session_id, parent_id, model_id, provider_id, mode, time, path, tokens, error, .. } => {
            assert_eq!(id, "m");
            assert_eq!(session_id, "s");
            assert_eq!(parent_id, "");
            assert_eq!(model_id, "model");
            assert_eq!(provider_id, "prov");
            assert_eq!(mode, "build");
            assert_eq!(time.created, 7);
            assert_eq!(time.completed, Some(7));
            assert_eq!(path.cwd, "/w");
            assert_eq!(tokens.input, 3);
            assert_eq!(tokens.output, 4);
            assert!(error.is_none());
        }
        _ => panic!("expected an assistant message"),
    }
}
