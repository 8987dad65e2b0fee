use crow_core::pair::{executor_feedback, extract_tool_calls, find_task_complete, last_user_message, new_user_message, parse_completion, PairAction, PairEvent, PairLoop, PairPhase};
use crow_core::store::MessageWithParts;
use crow_core::types::{Message, MessageTime, Part, ToolState, ToolTime};

fn tool_part(tool: &str, state: ToolState) -> Part {
    Part::Tool {
        id: "p".to_string(),
        session_id: "s".to_string(),
        message_id: "m".to_string(),
        call_id: "c".to_string(),
        tool: tool.to_string(),
        state,
    }
}

fn completed(output: &str, start: u64, end: Option<u64>) -> ToolState {
    ToolState::Completed { input: "{}".to_string(), output: output.to_string(), title: "t".to_string(), time: ToolTime { start, end } }
}

#[test]
fn completion_is_read_from_output() {
    let info = parse_completion("Task complete.\n\nSummary: Added X\n\nVerification: Tests pass");
    assert_eq!(info.summary, "Added X");
    assert_eq!(info.verification, "Tests pass");
    let empty = parse_completion("nothing here");
    assert_eq!(empty.summary, "");
    assert_eq!(empty.verification, "");
}

#[test]
fn task_complete_is_found_in_parts() {
    let parts = vec![
        tool_part("read", completed("Task complete.\n\nSummary: no", 1, Some(2))),
        tool_part("task_complete", completed("not done", 1, Some(2))),
        tool_part("task_complete", completed("Task complete.\n\nSummary: S\n\nVerification: V", 1, Some(2))),
    ];
    let info = find_task_complete(&parts).unwrap();
    assert_eq!(info.summary, "S");
    assert_eq!(info.verification, "V");
    assert!(find_task_complete(&vec![tool_part("read", completed("x", 0, None))]).is_none());
}

#[test]
fn tool_calls_are_extracted() {
    let parts = vec![
        tool_part("read", completed("x", 10, Some(25))),
        tool_part("bash", ToolState::Error { input: "{}".to_string(), error: "e".to_string(), time: ToolTime { start: 5, end: None } }),
        tool_part("grep", ToolState::Pending { input: "{}".to_string(), raw: String::new() }),
        tool_part("glob", completed("x", 30, Some(20))),
    ];
    let calls = extract_tool_calls(&parts, "executor", 3);
    assert_eq!(calls.len(), 3);
    assert_eq!(calls[0].tool, "read");
    assert_eq!(calls[0].duration_ms, 15);
    assert!(calls[0].success);
    assert_eq!(calls[1].duration_ms, 0);
    assert!(!calls[1].success);
    assert_eq!(calls[2].duration_ms, 0);
    assert_eq!(calls[2].step, 3);
    assert_eq!(calls[2].agent, "executor");
}

#[test]
fn feedback_message() {
    assert_eq!(
        executor_feedback(2, "fix it"),
        "# Arbiter Feedback (Step 2)\n\nThe arbiter reviewed your work and has feedback. Address the issues below.\n\n---\n\nfix it"
    );
}

#[test]
fn last_user_message_is_found() {
    let m = new_user_message("s", "hello");
    match &m.parts[0] {
        Part::Text { text, .. } => assert_eq!(text, "hello"),
        _ => panic!("Expected Text part"),
    }
    let assistant = MessageWithParts {
        info: Message::Assistant {
            id: "a".to_string(),
            session_id: "s".to_string(),
            parent_id: "p".to_string(),
            model_id: "m".to_string(),
            provider_id: "x".to_string(),
            mode: "build".to_string(),
            time: MessageTime { created: 0, completed: None },
            path: crow_core::types::MessagePath { cwd: "/".to_string(), root: "/".to_string() },
            cost_bits: 0,
            tokens: crow_core::types::TokenUsage { input: 0, output: 0, reasoning: 0, cache: crow_core::types::CacheTokens { read: 0, write: 0 } },
            error: None,
            summary: None,
            metadata: None,
        },
        parts: vec![],
    };
    let v = vec![m.clone(), assistant.clone()];
    assert_eq!(last_user_message(&v).unwrap(), &m);
    assert_eq!(last_user_message(&vec![assistant]).unwrap_err(), "No user message found in session");
}

#[test]
fn pair_loop_runs_until_completion() {
    let mut l = PairLoop::new(3, "executor", "arbiter");
    assert_eq!(l.next(PairEvent::Started), PairAction::RunWorker { step: 1 });
    assert_eq!(l.next(PairEvent::WorkerDone { parts: vec![tool_part("read", completed("x", 1, Some(4)))] }), PairAction::RunJudge { step: 1 });
    assert_eq!(l.next(PairEvent::JudgeDone { parts: vec![] }), PairAction::SendBackAndRunWorker { step: 2 });
    assert_eq!(l.next(PairEvent::WorkerDone { parts: vec![] }), PairAction::RunJudge { step: 2 });
    let done = l.next(PairEvent::JudgeDone {
        parts: vec![tool_part("task_complete", completed("Task complete.\n\nSummary: S\n\nVerification: V", 1, Some(2)))],
    });
    match done {
        PairAction::Complete { step, info } => {
            assert_eq!(step, 2);
            assert_eq!(info.summary, "S");
        }
        other => panic!("unexpected {:?}", other),
    }
    assert_eq!(l.phase, PairPhase::Finished);
    assert_eq!(l.tool_calls.len(), 2);
    assert_eq!(l.tool_calls[1].agent, "arbiter");
}

#[test]
fn pair_loop_stops_after_max_steps() {
    let mut l = PairLoop::new(1, "planner", "architect");
    assert_eq!(l.next(PairEvent::Started), PairAction::RunWorker { step: 1 });
    assert_eq!(l.next(PairEvent::WorkerDone { parts: vec![] }), PairAction::RunJudge { step: 1 });
    assert_eq!(l.next(PairEvent::JudgeDone { parts: vec![] }), PairAction::SendBackAndStop { steps: 1 });
    assert_eq!(l.next(PairEvent::Started), PairAction::Stop { steps: 1 });
    let mut zero = PairLoop::new(0, "executor", "arbiter");
    assert_eq!(zero.next(PairEvent::Started), PairAction::Stop { steps: 0 });
    let mut h = PairLoop::new(2, "planner", "architect");
    h.next(PairEvent::Started);
    h.next(PairEvent::WorkerDone { parts: vec![] });
    assert_eq!(
        h.next(PairEvent::HumanAnswered { text: "try again".to_string() }),
        PairAction::SendHumanAndRunWorker { text: "try again".to_string(), step: 2 }
    );
    assert!(h.interrupted);
    assert_eq!(h.next(PairEvent::HumanAnswered { text: "x".to_string() }), PairAction::Ignore);
}

#[test]
fn pair_loop_sends_a_person_s_answer_to_the_worker() {
    let mut l = PairLoop::new(1, "planner", "architect");
    assert!(!l.interrupted);
    l.next(PairEvent::Started);
    l.next(PairEvent::WorkerDone { parts: vec![] });
    assert_eq!(
        l.next(PairEvent::HumanAnswered { text: "stop here".to_string() }),
        PairAction::SendHumanAndStop { text: "stop here".to_string(), steps: 1 }
    );
    assert!(l.interrupted);
    assert_eq!(l.next(PairEvent::Started), PairAction::Stop { steps: 1 });
}

#[test]
fn new_user_message_has_fresh_uuid_ids() {
    let a = new_user_message("s", "one");
    let b = new_user_message("s", "two");
    let id = a.info.id();
    assert!(id.starts_with("msg-user-"));
    let u = &id["msg-user-".len()..];
    assert_eq!(u.len(), 36);
    for (i, c) in u.chars().enumerate() {
        if [8, 13, 18, 23].contains(&i) {
            assert_eq!(c, '-');
        } else {
            assert!(c.is_ascii_hexdigit() && !c.is_ascii_uppercase());
        }
    }
    assert!(a.parts[0].id().starts_with("part-"));
    assert_eq!(a.parts[0].id().len(), "part-".len() + 36);
    assert_ne!(a.info.id(), b.info.id());
}

#[test]
fn task_complete_output_parses_back() {
    let out = crow_core::tools::info::TaskCompleteTool::output("Added a cache\nwith two lines", "cargo test: 12 passed");
    let info = parse_completion(&out);
    assert_eq!(info.summary, "Added a cache\nwith two lines");
    assert_eq!(info.verification, "cargo test: 12 passed");
}
