use crow_core::cli::OutputMode;
use crow_core::render::{count_words, Emit, Paint, StreamRenderer};
use crow_core::types::{Part, ToolState, ToolTime};

fn texts(e: &Emit) -> String {
    e.segments.iter().map(|s| s.text.clone()).collect::<Vec<_>>().join("")
}

#[test]
fn words_are_counted() {
    assert_eq!(count_words("  hello   big\tworld \n"), 3);
    assert_eq!(count_words(""), 0);
    assert_eq!(count_words("one"), 1);
}

#[test]
fn thinking_then_response_in_verbose_mode() {
    let mut r = StreamRenderer::new(OutputMode::Verbose);
    let mut out = Vec::new();
    r.handle_text_event("part-thinking-1", "let me see", &mut out);
    assert!(r.in_thinking);
    assert_eq!(texts(&out[0]), "\u{1f7e6} THINKING");
    assert_eq!(out[1].segments[0].paint, Paint::Blue);
    r.handle_text_event("part-text-1", "Answer", &mut out);
    assert!(r.in_text);
    assert!(!r.in_thinking);
    assert_eq!(r.thinking_content, "let me see");
    assert_eq!(r.text_content, "Answer");
    assert_eq!(r.thinking_tokens, 3);
    assert_eq!(r.text_tokens, 1);
    let last = out.last().unwrap();
    assert!(!last.to_stderr);
    assert_eq!(texts(last), "Answer");
}

#[test]
fn quiet_and_json_modes_hold_back() {
    let mut q = StreamRenderer::new(OutputMode::Quiet);
    let mut out = Vec::new();
    q.handle_thinking_delta("hidden", &mut out);
    assert!(out.is_empty());
    q.handle_text_delta("shown", &mut out);
    assert_eq!(out.len(), 1);
    let mut j = StreamRenderer::new(OutputMode::Json);
    let mut out2 = Vec::new();
    j.handle_text_delta("kept", &mut out2);
    assert!(out2.is_empty());
    assert_eq!(j.text_content, "kept");
}

#[test]
fn tool_results_are_recorded_and_cut() {
    let mut r = StreamRenderer::new(OutputMode::Verbose);
    let mut out = Vec::new();
    r.handle_tool_part("read", "c1", &ToolState::Pending { input: "{}".to_string(), raw: String::new() }, &mut out);
    assert_eq!(r.current_tool, Some("c1".to_string()));
    let before = out.len();
    r.handle_tool_part("read", "c1", &ToolState::Running { input: "{}".to_string(), title: None, time: ToolTime { start: 0, end: None } }, &mut out);
    assert_eq!(out.len(), before);
    let output: Vec<String> = (1..=25).map(|i| format!("line {}", i)).collect();
    r.handle_tool_part(
        "read",
        "c1",
        &ToolState::Completed { input: "{}".to_string(), output: output.join("\n"), title: String::new(), time: ToolTime { start: 100, end: Some(130) } },
        &mut out,
    );
    assert_eq!(r.current_tool, None);
    assert_eq!(r.tools.len(), 1);
    assert_eq!(r.tools[0].duration_ms, Some(30));
    let tail: Vec<String> = out.iter().rev().take(2).map(texts).collect();
    assert_eq!(tail[0], "   ... (10 more lines)");
    assert_eq!(tail[1], "   line 15");
    let part = Part::Patch { id: "p".to_string(), session_id: "s".to_string(), message_id: "m".to_string(), hash: "h".to_string(), files: vec!["a.rs".to_string()] };
    r.handle_part(&part, &mut out);
    assert_eq!(texts(out.last().unwrap()), "   a.rs");
}

#[test]
fn errors_close_blocks_and_show_in_red() {
    let mut r = StreamRenderer::new(OutputMode::Verbose);
    let mut out = Vec::new();
    r.handle_text_delta("partial", &mut out);
    let before = out.len();
    r.handle_error("boom", &mut out);
    assert!(!r.in_text);
    assert_eq!(out.len(), before + 3);
    assert!(!out[before].to_stderr && out[before].segments.is_empty() && out[before].newline);
    assert_eq!(texts(&out[before + 2]), "\u{1f7e5} ERROR: boom");
    assert_eq!(out[before + 2].segments[2].paint, Paint::Red);

    let before = out.len();
    r.handle_tool_part(
        "grep",
        "c9",
        &ToolState::Error { input: "{}".to_string(), error: "bad pattern".to_string(), time: ToolTime { start: 5, end: None } },
        &mut out,
    );
    assert_eq!(out.len(), before + 3);
    assert_eq!(texts(&out[before + 1]), "\u{1f7e5} TOOL ERROR: grep");
    assert_eq!(texts(&out[before + 2]), "   bad pattern");
    assert_eq!(r.tools.last().unwrap().error, Some("bad pattern".to_string()));
    assert_eq!(r.tools.last().unwrap().duration_ms, None);

    let mut j = StreamRenderer::new(OutputMode::Json);
    let mut none = Vec::new();
    j.handle_error("quiet", &mut none);
    assert!(none.is_empty());
}
