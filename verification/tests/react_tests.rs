use crow_core::agent::get_builtin_agents;
use crow_core::react::{build_context, classify_sse_line, is_file_modifying, plan_call, turn_step, CallPlan, LlmMessage, SseBuffer, SseLine, ToolCallAccumulator, TurnStep};
use crow_core::store::MessageWithParts;
use crow_core::types::{CacheTokens, Message, MessagePath, MessageTime, Part, TokenUsage, ToolState, ToolTime};

fn text(t: &str) -> Part {
    Part::Text { id: "p".to_string(), session_id: "s".to_string(), message_id: "m".to_string(), text: t.to_string() }
}

fn user(parts: Vec<Part>) -> MessageWithParts {
    MessageWithParts {
        info: Message::User { id: "u".to_string(), session_id: "s".to_string(), time: MessageTime { created: 0, completed: None }, summary: None, metadata: None },
        parts,
    }
}

fn assistant(parts: Vec<Part>) -> MessageWithParts {
    MessageWithParts {
        info: Message::Assistant {
            id: "a".to_string(),
            session_id: "s".to_string(),
            parent_id: "u".to_string(),
            model_id: "m".to_string(),
            provider_id: "p".to_string(),
            mode: "build".to_string(),
            time: MessageTime { created: 0, completed: None },
            path: MessagePath { cwd: "/".to_string(), root: "/".to_string() },
            cost_bits: 0,
            tokens: TokenUsage { input: 0, output: 0, reasoning: 0, cache: CacheTokens { read: 0, write: 0 } },
            error: None,
            summary: None,
            metadata: None,
        },
        parts,
    }
}

#[test]
fn context_is_built_from_history() {
    let tool = Part::Tool {
        id: "t".to_string(),
        session_id: "s".to_string(),
        message_id: "a".to_string(),
        call_id: "call1".to_string(),
        tool: "read".to_string(),
        state: ToolState::Completed { input: "{\"filePath\":\"x\"}".to_string(), output: "contents".to_string(), title: "read".to_string(), time: ToolTime { start: 0, end: None } },
    };
    let err = Part::Tool {
        id: "t2".to_string(),
        session_id: "s".to_string(),
        message_id: "a".to_string(),
        call_id: "call2".to_string(),
        tool: "bash".to_string(),
        state: ToolState::Error { input: "{}".to_string(), error: "boom".to_string(), time: ToolTime { start: 0, end: None } },
    };
    let history = vec![
        user(vec![text("hello"), text("there")]),
        assistant(vec![tool, err, text("ignored")]),
        assistant(vec![text("done")]),
        user(vec![]),
        user(vec![text("next")]),
    ];
    let ctx = build_context(&vec!["sys1".to_string(), "sys2".to_string()], &history, Some("REMIND"));
    assert_eq!(ctx.len(), 8);
    assert_eq!(ctx[0], LlmMessage::System { content: "sys1".to_string() });
    assert_eq!(ctx[2], LlmMessage::User { content: "hello\nthere".to_string() });
    match &ctx[3] {
        LlmMessage::AssistantToolCalls { calls } => {
            assert_eq!(calls.len(), 2);
            assert_eq!(calls[0].id, "call1");
            assert_eq!(calls[0].arguments, "{\"filePath\":\"x\"}");
        }
        other => panic!("unexpected {:?}", other),
    }
    assert_eq!(ctx[4], LlmMessage::Tool { call_id: "call1".to_string(), content: "contents".to_string() });
    assert_eq!(ctx[5], LlmMessage::Tool { call_id: "call2".to_string(), content: "Error: boom".to_string() });
    assert_eq!(ctx[6], LlmMessage::AssistantText { content: "done".to_string() });
    assert_eq!(ctx[7], LlmMessage::User { content: "next\n\nREMIND".to_string() });
}

#[test]
fn streamed_tool_calls_are_assembled() {
    let mut acc = ToolCallAccumulator::new();
    assert!(acc.is_empty());
    acc.add_piece(0, Some("c0".to_string()), Some("read".to_string()), "{\"a\":");
    acc.add_piece(1, Some("c1".to_string()), Some("grep".to_string()), "{}");
    acc.add_piece(0, None, None, "1}");
    let calls = acc.calls();
    assert_eq!(calls.len(), 2);
    assert_eq!(calls[0].id, "c0");
    assert_eq!(calls[0].name, "read");
    assert_eq!(calls[0].arguments, "{\"a\":1}");
    assert_eq!(calls[1].name, "grep");
}

#[test]
fn stream_lines_are_classified() {
    assert_eq!(classify_sse_line("  "), SseLine::Skip);
    assert_eq!(classify_sse_line(": keepalive"), SseLine::Skip);
    assert_eq!(classify_sse_line("data: [DONE]"), SseLine::Done);
    assert_eq!(classify_sse_line("data: {\"x\":1}\r"), SseLine::Data("{\"x\":1}".to_string()));
    assert_eq!(classify_sse_line("event: ping"), SseLine::Skip);
    let mut b = SseBuffer::new();
    b.push_text("data: a\ndata: b");
    assert_eq!(b.next_line(), Some("data: a".to_string()));
    assert_eq!(b.next_line(), None);
    b.push_text("\n");
    assert_eq!(b.next_line(), Some("data: b".to_string()));
}

#[test]
fn turn_steps_and_permissions() {
    assert_eq!(turn_step(0, false), TurnStep::CallModel);
    assert_eq!(turn_step(3, true), TurnStep::Abort);
    assert_eq!(turn_step(10, false), TurnStep::Finish);
    let agents = get_builtin_agents();
    let plan = agents.get("plan").unwrap();
    assert_eq!(
        plan_call(plan, "edit", None),
        CallPlan::Denied { note: "\u{274c} Tool 'edit' denied: Edit permission denied for this agent".to_string(), reply: "Error: Edit permission denied for this agent".to_string() }
    );
    let build = agents.get("build").unwrap();
    assert_eq!(plan_call(build, "read", None), CallPlan::Run);
    assert!(is_file_modifying("bash"));
    assert!(!is_file_modifying("read"));
}
