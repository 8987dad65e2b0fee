//! What the command line shows while an agent's turn streams in: which
//! blocks open and close, what each line says and how it is painted, and
//! the tool calls and word counts kept for the summary. Writing to the
//! terminal and colouring happen outside.
use vstd::prelude::*;
use crate::text::{
    chars_of, concat_str, decimal, decimal_of, dv, is_whitespace, is_ws, lines, lines_of, lit, owned, push_all,
    push_str, str_eq, string_from_chars, contains, has_substring, sv,
};
use crate::types::{Part, ToolState};
use crate::cli::OutputMode;

verus! {

/// How a piece of text is painted.
#[derive(Debug, Clone, Copy, PartialEq, Eq, Structural)]
pub enum Paint {
    Plain,
    Blue,
    BlueBold,
    WhiteBold,
    Green,
    GreenBold,
    Yellow,
    YellowBold,
    Red,
    RedBold,
    CyanBold,
    Dimmed,
    /// JSON text, shown pretty-printed and dimmed.
    DimmedJson,
}

/// A painted piece of text.
#[derive(Debug, Clone, PartialEq)]
pub struct Segment {
    pub paint: Paint,
    pub text: String,
}

/// Something to write: to standard error or standard output, the painted
/// pieces, and whether a line ends after them.
#[derive(Debug, Clone, PartialEq)]
pub struct Emit {
    pub to_stderr: bool,
    pub segments: Vec<Segment>,
    pub newline: bool,
}

/// A tool call seen during the turn.
#[derive(Debug, Clone, PartialEq)]
pub struct ToolExecution {
    pub name: String,
    pub call_id: String,
    pub input: String,
    pub output: Option<String>,
    pub error: Option<String>,
    pub duration_ms: Option<u64>,
}

/// The number of words of `s` (maximal runs of non-whitespace), as
/// `split_whitespace().count()` gives it.
pub open spec fn word_count(s: Seq<char>) -> nat
    decreases s.len(),
{
    if s.len() == 0 {
        0
    } else {
        word_count(s.drop_last()) + if !is_ws(s.last()) && (s.len() == 1 || is_ws(s[s.len() - 2])) {
            1nat
        } else {
            0nat
        }
    }
}

/// Count the words of `s` (see [`word_count`]).
pub fn count_words(s: &str) -> (r: usize)
    ensures
        r == word_count(s@),
{
    let c = chars_of(s);
    let mut n: usize = 0;
    let mut i: usize = 0;
    assert(c@.take(0) =~= Seq::<char>::empty());
    while i < c.len()
        invariant
            i <= c@.len(),
            n == word_count(c@.take(i as int)),
            n <= i,
        decreases c@.len() - i,
    {
        let ghost t = c@.take(i as int + 1);
        assert(t.drop_last() =~= c@.take(i as int));
        assert(t.last() == c@[i as int]);
        if i > 0 {
            assert(t[t.len() - 2] == c@[i - 1]);
        }
        let starts = !is_whitespace(c[i]) && (i == 0 || is_whitespace(c[i - 1]));
        if starts {
            n = n + 1;
        }
        i = i + 1;
    }
    assert(c@.take(c@.len() as int) =~= c@);
    n
}

/// How the lines of a tool's output are shown: all of them up to 20,
/// else the first 15 and a note of how many more there are.
pub open spec fn shown_output_lines(output: Seq<char>) -> (Seq<Seq<char>>, nat) {
    let ls = lines(output);
    if ls.len() <= 20 {
        (ls, 0)
    } else {
        (ls.take(15), (ls.len() - 15) as nat)
    }
}

/// The duration of a finished tool call, if it has an end time.
pub open spec fn tool_duration(start: u64, end: Option<u64>) -> Option<u64> {
    match end {
        Some(e) => Some(if e >= start { (e - start) as u64 } else { 0 }),
        None => None,
    }
}

/// The renderer's state: the output mode, whether a thinking or response
/// block is open, the tool call being shown, the finished tool calls, the
/// text received and its word counts.
pub struct StreamRenderer {
    pub mode: OutputMode,
    pub in_thinking: bool,
    pub in_text: bool,
    pub current_tool: Option<String>,
    pub tools: Vec<ToolExecution>,
    pub thinking_content: String,
    pub text_content: String,
    pub text_tokens: usize,
    pub thinking_tokens: usize,
}

/// The content of a segment: its paint and its text.
pub open spec fn seg_view(s: Segment) -> (Paint, Seq<char>) {
    (s.paint, s.text@)
}

/// The content of an emitted piece of output.
pub struct EmitView {
    pub to_stderr: bool,
    pub segments: Seq<(Paint, Seq<char>)>,
    pub newline: bool,
}

impl View for Emit {
    type V = EmitView;

    open spec fn view(&self) -> EmitView {
        EmitView {
            to_stderr: self.to_stderr,
            segments: self.segments@.map_values(|s: Segment| seg_view(s)),
            newline: self.newline,
        }
    }
}

/// The contents of a sequence of emitted pieces.
pub open spec fn evs(s: Seq<Emit>) -> Seq<EmitView> {
    s.map_values(|e: Emit| e@)
}

/// A whole line on standard error made of `segments`.
pub open spec fn err_line(segments: Seq<(Paint, Seq<char>)>) -> EmitView {
    EmitView { to_stderr: true, segments, newline: true }
}

/// An empty line on standard error.
pub open spec fn blank_line() -> EmitView {
    err_line(Seq::empty())
}

/// An empty line on standard output.
pub open spec fn blank_out_line() -> EmitView {
    EmitView { to_stderr: false, segments: Seq::empty(), newline: true }
}

/// What closing the open blocks writes: a line end on standard error for
/// a thinking block, then one on standard output for a response block.
pub open spec fn closing(in_thinking: bool, in_text: bool) -> Seq<EmitView> {
    (if in_thinking {
        seq![blank_line()]
    } else {
        Seq::empty()
    }) + (if in_text {
        seq![blank_out_line()]
    } else {
        Seq::empty()
    })
}

/// What a piece of thinking writes (nothing in quiet or JSON mode): the
/// end of an open response line, the thinking header when no thinking
/// block is open, then the piece in blue without a line end.
pub open spec fn thinking_emits(mode: OutputMode, in_thinking: bool, in_text: bool, delta: Seq<char>) -> Seq<
    EmitView,
> {
    if mode == OutputMode::Quiet || mode == OutputMode::Json {
        Seq::empty()
    } else {
        (if in_text {
            seq![blank_line()]
        } else {
            Seq::empty()
        }) + (if !in_thinking {
            seq![err_line(seq![(Paint::BlueBold, "\u{1f7e6} THINKING"@)])]
        } else {
            Seq::empty()
        }) + seq![EmitView { to_stderr: true, segments: seq![(Paint::Blue, delta)], newline: false }]
    }
}

/// What a piece of the response writes (nothing in JSON mode): two line
/// ends after an open thinking block, the response header (verbose mode)
/// when no response block is open, then the piece on standard output
/// without a line end.
pub open spec fn text_emits(mode: OutputMode, in_thinking: bool, in_text: bool, delta: Seq<char>) -> Seq<
    EmitView,
> {
    if mode == OutputMode::Json {
        Seq::empty()
    } else {
        (if in_thinking {
            seq![blank_line(), blank_line()]
        } else {
            Seq::empty()
        }) + (if !in_text && mode == OutputMode::Verbose {
            seq![err_line(seq![(Paint::WhiteBold, "\u{2b1c} RESPONSE"@)])]
        } else {
            Seq::empty()
        }) + seq![EmitView { to_stderr: false, segments: seq![(Paint::Plain, delta)], newline: false }]
    }
}

/// What an error of the turn writes after the open blocks are closed
/// (nothing more in JSON mode).
pub open spec fn error_emits(mode: OutputMode, message: Seq<char>) -> Seq<EmitView> {
    if mode == OutputMode::Json {
        Seq::empty()
    } else {
        seq![
            blank_line(),
            err_line(seq![(Paint::RedBold, "\u{1f7e5} ERROR:"@), (Paint::Plain, " "@), (Paint::Red, message)]),
        ]
    }
}

/// The lines written for a tool's output: each shown line indented in
/// yellow, then, when lines were left out, how many (see
/// [`shown_output_lines`]).
pub open spec fn output_emits(output: Seq<char>) -> Seq<EmitView> {
    let (ls, more) = shown_output_lines(output);
    ls.map_values(|l: Seq<char>| err_line(seq![(Paint::Plain, "   "@), (Paint::Yellow, l)])) + if more > 0 {
        seq![
            err_line(
                seq![
                    (Paint::Plain, "   "@),
                    (Paint::Yellow, "..."@),
                    (Paint::Plain, " ("@ + decimal(more) + " more lines)"@),
                ],
            ),
        ]
    } else {
        Seq::empty()
    }
}

/// Whether `current` is the call `call_id`.
pub open spec fn is_current(current: Option<String>, call_id: Seq<char>) -> bool {
    current matches Some(c) && c@ == call_id
}

/// What a tool part writes, given the renderer before it: a new pending
/// or running call closes the open blocks and (verbose mode) shows the
/// call; a finished call (verbose mode) shows its result or error.
pub open spec fn tool_emits(r: StreamRenderer, tool: Seq<char>, call_id: Seq<char>, state: ToolState) -> Seq<
    EmitView,
> {
    let verbose = r.mode == OutputMode::Verbose;
    match state {
        ToolState::Pending { input, .. } => call_emits(r, tool, call_id, input@),
        ToolState::Running { input, .. } => call_emits(r, tool, call_id, input@),
        ToolState::Completed { output, title, time, .. } => if verbose {
            result_emits(tool, title@, output@, ms_or_zero(tool_duration(time.start, time.end)))
        } else {
            Seq::empty()
        },
        ToolState::Error { error, .. } => if verbose {
            seq![
                blank_line(),
                err_line(seq![(Paint::RedBold, "\u{1f7e5} TOOL ERROR:"@), (Paint::Plain, " "@), (Paint::Red, tool)]),
                err_line(seq![(Paint::Plain, "   "@), (Paint::Red, error@)]),
            ]
        } else {
            Seq::empty()
        },
    }
}

/// A duration in milliseconds, 0 when unknown.
pub open spec fn ms_or_zero(d: Option<u64>) -> nat {
    match d {
        Some(v) => v as nat,
        None => 0,
    }
}

/// What a finished call's result writes (verbose mode): the header with
/// the duration, the title when there is one, and the output's lines.
pub open spec fn result_emits(tool: Seq<char>, title: Seq<char>, output: Seq<char>, ms: nat) -> Seq<EmitView> {
    seq![
        blank_line(),
        err_line(
            seq![
                (Paint::YellowBold, "\u{1f7e8} TOOL RESULT:"@),
                (Paint::Plain, " "@),
                (Paint::Yellow, tool),
                (Paint::Plain, " "@),
                (Paint::Dimmed, "("@ + decimal(ms) + "ms)"@),
            ],
        ),
    ] + (if title.len() > 0 {
        seq![err_line(seq![(Paint::Plain, "   "@), (Paint::Dimmed, title)])]
    } else {
        Seq::empty()
    }) + output_emits(output)
}

/// What a pending or running call writes (see [`tool_emits`]).
pub open spec fn call_emits(r: StreamRenderer, tool: Seq<char>, call_id: Seq<char>, input: Seq<char>) -> Seq<
    EmitView,
> {
    if is_current(r.current_tool, call_id) {
        Seq::empty()
    } else {
        closing(r.in_thinking, r.in_text) + if r.mode == OutputMode::Verbose {
            seq![
                blank_line(),
                err_line(
                    seq![(Paint::GreenBold, "\u{1f7e9} TOOL CALL:"@), (Paint::Plain, " "@), (Paint::GreenBold, tool)],
                ),
                err_line(seq![(Paint::Dimmed, "   Call ID:"@), (Paint::Plain, " "@), (Paint::Dimmed, call_id)]),
                err_line(seq![(Paint::Dimmed, "   Input:"@), (Paint::Plain, " "@), (Paint::DimmedJson, input)]),
            ]
        } else {
            Seq::empty()
        }
    }
}

/// The renderer `post` is `pre` after a tool part: the text and counts stay;
/// a new pending or running call closes the open blocks and becomes the
/// current call; a finished call is recorded with its duration and ends
/// the current call.
pub open spec fn tool_part_step(
    pre: StreamRenderer,
    post: StreamRenderer,
    tool: Seq<char>,
    call_id: Seq<char>,
    state: ToolState,
) -> bool {
    &&& post.mode == pre.mode
    &&& post.thinking_content == pre.thinking_content
    &&& post.text_content == pre.text_content
    &&& post.text_tokens == pre.text_tokens
    &&& post.thinking_tokens == pre.thinking_tokens
    &&& match state {
        ToolState::Pending { .. } => call_step(pre, post, call_id),
        ToolState::Running { .. } => call_step(pre, post, call_id),
        ToolState::Completed { input, output, time, .. } => {
            &&& post.in_thinking == pre.in_thinking
            &&& post.in_text == pre.in_text
            &&& post.current_tool is None
            &&& post.tools@.len() == pre.tools@.len() + 1
            &&& post.tools@.drop_last() == pre.tools@
            &&& post.tools@.last().name@ == tool
            &&& post.tools@.last().call_id@ == call_id
            &&& post.tools@.last().input@ == input@
            &&& post.tools@.last().output matches Some(o) && o@ == output@
            &&& post.tools@.last().error is None
            &&& post.tools@.last().duration_ms == tool_duration(time.start, time.end)
        },
        ToolState::Error { input, error, time } => {
            &&& post.in_thinking == pre.in_thinking
            &&& post.in_text == pre.in_text
            &&& post.current_tool is None
            &&& post.tools@.len() == pre.tools@.len() + 1
            &&& post.tools@.drop_last() == pre.tools@
            &&& post.tools@.last().name@ == tool
            &&& post.tools@.last().call_id@ == call_id
            &&& post.tools@.last().input@ == input@
            &&& post.tools@.last().error matches Some(e) && e@ == error@
            &&& post.tools@.last().output is None
            &&& post.tools@.last().duration_ms == tool_duration(time.start, time.end)
        },
    }
}

/// The renderer `post` is `pre` after a pending or running call: a new
/// call closes the open blocks and becomes the current call.
pub open spec fn call_step(pre: StreamRenderer, post: StreamRenderer, call_id: Seq<char>) -> bool {
    &&& post.tools@ == pre.tools@
    &&& if is_current(pre.current_tool, call_id) {
        post.in_thinking == pre.in_thinking && post.in_text == pre.in_text && post.current_tool == pre.current_tool
    } else {
        !post.in_thinking && !post.in_text && is_current(post.current_tool, call_id)
    }
}

/// What a patch part writes: in verbose mode the open blocks are closed
/// and the changed files listed, else nothing.
pub open spec fn patch_emits(r: StreamRenderer, files: Seq<Seq<char>>) -> Seq<EmitView> {
    if r.mode == OutputMode::Verbose {
        closing(r.in_thinking, r.in_text) + seq![
            blank_line(),
            err_line(seq![(Paint::CyanBold, "\u{1f4dd} FILES MODIFIED"@)]),
        ] + files.map_values(|f: Seq<char>| err_line(seq![(Paint::Plain, "   "@), (Paint::Yellow, f)]))
    } else {
        Seq::empty()
    }
}

fn seg(paint: Paint, text: &str) -> (r: Segment)
    ensures
        r.paint == paint,
        r.text@ == text@,
{
    Segment { paint, text: owned(text) }
}

fn line_to_stderr(segments: Vec<Segment>) -> (r: Emit)
    ensures
        r@ == err_line(segments@.map_values(|s: Segment| seg_view(s))),
{
    Emit { to_stderr: true, segments, newline: true }
}

fn blank_stderr() -> (r: Emit)
    ensures
        r@ == blank_line(),
{
    let r = Emit { to_stderr: true, segments: Vec::new(), newline: true };
    assert(r@.segments =~= Seq::<(Paint, Seq<char>)>::empty());
    r
}

/// Push `e` onto `out`.
fn emit(out: &mut Vec<Emit>, e: Emit)
    ensures
        evs(final(out)@) == evs(old(out)@).push(e@),
{
    let ghost before = out@;
    out.push(e);
    assert(evs(out@) =~= evs(before).push(e@));
}

impl StreamRenderer {
    /// A renderer with nothing shown yet.
    pub fn new(mode: OutputMode) -> (r: StreamRenderer)
        ensures
            r.mode == mode,
            !r.in_thinking,
            !r.in_text,
            r.current_tool is None,
            r.tools@.len() == 0,
            r.thinking_content@.len() == 0,
            r.text_content@.len() == 0,
            r.text_tokens == 0,
            r.thinking_tokens == 0,
    {
        let r = StreamRenderer {
            mode,
            in_thinking: false,
            in_text: false,
            current_tool: None,
            tools: Vec::new(),
            thinking_content: String::new(),
            text_content: String::new(),
            text_tokens: 0,
            thinking_tokens: 0,
        };
        assert(r.thinking_content@ =~= Seq::<char>::empty());
        r
    }

    /// Close the open block, if any: a thinking block ends its line on
    /// standard error, a response block on standard output.
    pub fn end_current_output(&mut self, out: &mut Vec<Emit>)
        ensures
            !final(self).in_thinking,
            !final(self).in_text,
            final(self).mode == old(self).mode,
            final(self).current_tool == old(self).current_tool,
            final(self).tools@ == old(self).tools@,
            final(self).thinking_content == old(self).thinking_content,
            final(self).text_content == old(self).text_content,
            final(self).text_tokens == old(self).text_tokens,
            final(self).thinking_tokens == old(self).thinking_tokens,
            evs(final(out)@) == evs(old(out)@) + closing(old(self).in_thinking, old(self).in_text),
    {
        let ghost base = evs(out@);
        let ghost (th, tx) = (self.in_thinking, self.in_text);
        if self.in_thinking {
            emit(out, blank_stderr());
            self.in_thinking = false;
        }
        if self.in_text {
            let e = Emit { to_stderr: false, segments: Vec::new(), newline: true };
            assert(e@.segments =~= Seq::<(Paint, Seq<char>)>::empty());
            emit(out, e);
            self.in_text = false;
        }
        assert(evs(out@) =~= base + closing(th, tx));
    }

    /// A piece of the model's thinking: kept and counted; shown in blue
    /// under a thinking header unless the output is quiet or JSON (see
    /// [`thinking_emits`]).
    pub fn handle_thinking_delta(&mut self, delta: &str, out: &mut Vec<Emit>)
        requires
            old(self).thinking_tokens + word_count(delta@) <= usize::MAX,
        ensures
            final(self).thinking_content@ == old(self).thinking_content@ + delta@,
            final(self).thinking_tokens == old(self).thinking_tokens + word_count(delta@),
            final(self).text_tokens == old(self).text_tokens,
            final(self).text_content == old(self).text_content,
            final(self).mode == old(self).mode,
            final(self).current_tool == old(self).current_tool,
            final(self).tools@ == old(self).tools@,
            final(self).in_thinking == if old(self).mode == OutputMode::Quiet || old(self).mode == OutputMode::Json {
                old(self).in_thinking
            } else {
                true
            },
            final(self).in_text == if old(self).mode == OutputMode::Quiet || old(self).mode == OutputMode::Json {
                old(self).in_text
            } else {
                false
            },
            evs(final(out)@) == evs(old(out)@) + thinking_emits(
                old(self).mode,
                old(self).in_thinking,
                old(self).in_text,
                delta@,
            ),
    {
        let ghost base = evs(out@);
        let ghost (th, tx) = (self.in_thinking, self.in_text);
        let mut t = chars_of(self.thinking_content.as_str());
        push_str(&mut t, delta);
        self.thinking_content = string_from_chars(&t);
        let w = count_words(delta);
        self.thinking_tokens = self.thinking_tokens + w;
        if self.mode == OutputMode::Quiet || self.mode == OutputMode::Json {
            assert(evs(out@) =~= base + Seq::<EmitView>::empty());
            return;
        }
        if self.in_text {
            emit(out, blank_stderr());
            self.in_text = false;
        }
        if !self.in_thinking {
            let mut s = Vec::new();
            s.push(seg(Paint::BlueBold, "\u{1f7e6} THINKING"));
            let e = line_to_stderr(s);
            assert(e@.segments =~= seq![(Paint::BlueBold, "\u{1f7e6} THINKING"@)]);
            emit(out, e);
            self.in_thinking = true;
        }
        let mut s = Vec::new();
        s.push(seg(Paint::Blue, delta));
        let e = Emit { to_stderr: true, segments: s, newline: false };
        assert(e@.segments =~= seq![(Paint::Blue, delta@)]);
        emit(out, e);
        assert(evs(out@) =~= base + thinking_emits(self.mode, th, tx, delta@));
    }

    /// A piece of the response: kept and counted; written to standard
    /// output (under a response header in verbose mode) unless the output
    /// is JSON (see [`text_emits`]).
    pub fn handle_text_delta(&mut self, delta: &str, out: &mut Vec<Emit>)
        requires
            old(self).text_tokens + word_count(delta@) <= usize::MAX,
        ensures
            final(self).text_content@ == old(self).text_content@ + delta@,
            final(self).text_tokens == old(self).text_tokens + word_count(delta@),
            final(self).thinking_tokens == old(self).thinking_tokens,
            final(self).thinking_content == old(self).thinking_content,
            final(self).mode == old(self).mode,
            final(self).current_tool == old(self).current_tool,
            final(self).tools@ == old(self).tools@,
            final(self).in_thinking == if old(self).mode == OutputMode::Json {
                old(self).in_thinking
            } else {
                false
            },
            final(self).in_text == if old(self).mode == OutputMode::Json {
                old(self).in_text
            } else {
                true
            },
            evs(final(out)@) == evs(old(out)@) + text_emits(old(self).mode, old(self).in_thinking, old(self).in_text, delta@),
    {
        let ghost base = evs(out@);
        let ghost (th, tx) = (self.in_thinking, self.in_text);
        let mut t = chars_of(self.text_content.as_str());
        push_str(&mut t, delta);
        self.text_content = string_from_chars(&t);
        let w = count_words(delta);
        self.text_tokens = self.text_tokens + w;
        if self.mode == OutputMode::Json {
            assert(evs(out@) =~= base + Seq::<EmitView>::empty());
            return;
        }
        if self.in_thinking {
            emit(out, blank_stderr());
            emit(out, blank_stderr());
            self.in_thinking = false;
        }
        if !self.in_text {
            if self.mode == OutputMode::Verbose {
                let mut s = Vec::new();
                s.push(seg(Paint::WhiteBold, "\u{2b1c} RESPONSE"));
                let e = line_to_stderr(s);
                assert(e@.segments =~= seq![(Paint::WhiteBold, "\u{2b1c} RESPONSE"@)]);
                emit(out, e);
            }
            self.in_text = true;
        }
        let mut s = Vec::new();
        s.push(seg(Paint::Plain, delta));
        let e = Emit { to_stderr: false, segments: s, newline: false };
        assert(e@.segments =~= seq![(Paint::Plain, delta@)]);
        emit(out, e);
        assert(evs(out@) =~= base + text_emits(self.mode, th, tx, delta@));
    }

    /// A streamed piece of text: thinking when its part id says so, else
    /// response.
    pub fn handle_text_event(&mut self, part_id: &str, delta: &str, out: &mut Vec<Emit>)
        requires
            old(self).text_tokens + word_count(delta@) <= usize::MAX,
            old(self).thinking_tokens + word_count(delta@) <= usize::MAX,
        ensures
            final(self).mode == old(self).mode,
            final(self).current_tool == old(self).current_tool,
            final(self).tools@ == old(self).tools@,
            contains(part_id@, "thinking"@) ==> {
                &&& final(self).thinking_content@ == old(self).thinking_content@ + delta@
                &&& final(self).thinking_tokens == old(self).thinking_tokens + word_count(delta@)
                &&& final(self).text_content == old(self).text_content
                &&& final(self).text_tokens == old(self).text_tokens
                &&& final(self).in_thinking == if old(self).mode == OutputMode::Quiet || old(self).mode
                    == OutputMode::Json {
                    old(self).in_thinking
                } else {
                    true
                }
                &&& final(self).in_text == if old(self).mode == OutputMode::Quiet || old(self).mode
                    == OutputMode::Json {
                    old(self).in_text
                } else {
                    false
                }
                &&& evs(final(out)@) == evs(old(out)@) + thinking_emits(
                    old(self).mode,
                    old(self).in_thinking,
                    old(self).in_text,
                    delta@,
                )
            },
            !contains(part_id@, "thinking"@) ==> {
                &&& final(self).text_content@ == old(self).text_content@ + delta@
                &&& final(self).text_tokens == old(self).text_tokens + word_count(delta@)
                &&& final(self).thinking_content == old(self).thinking_content
                &&& final(self).thinking_tokens == old(self).thinking_tokens
                &&& final(self).in_thinking == if old(self).mode == OutputMode::Json {
                    old(self).in_thinking
                } else {
                    false
                }
                &&& final(self).in_text == if old(self).mode == OutputMode::Json {
                    old(self).in_text
                } else {
                    true
                }
                &&& evs(final(out)@) == evs(old(out)@) + text_emits(
                    old(self).mode,
                    old(self).in_thinking,
                    old(self).in_text,
                    delta@,
                )
            },
    {
        let p = chars_of(part_id);
        let t = lit("thinking");
        proof {
            reveal_strlit("thinking");
        }
        if has_substring(&p, &t) {
            self.handle_thinking_delta(delta, out);
        } else {
            self.handle_text_delta(delta, out);
        }
    }

    /// An error of the turn: the open blocks are closed, then the error is
    /// shown in red unless the output is JSON.
    pub fn handle_error(&mut self, message: &str, out: &mut Vec<Emit>)
        ensures
            !final(self).in_thinking,
            !final(self).in_text,
            final(self).mode == old(self).mode,
            final(self).current_tool == old(self).current_tool,
            final(self).tools@ == old(self).tools@,
            final(self).thinking_content == old(self).thinking_content,
            final(self).text_content == old(self).text_content,
            final(self).text_tokens == old(self).text_tokens,
            final(self).thinking_tokens == old(self).thinking_tokens,
            evs(final(out)@) == evs(old(out)@) + closing(old(self).in_thinking, old(self).in_text) + error_emits(
                old(self).mode,
                message@,
            ),
    {
        let ghost base = evs(out@);
        self.end_current_output(out);
        let ghost closed = evs(out@);
        if self.mode != OutputMode::Json {
            emit(out, blank_stderr());
            let mut s = Vec::new();
            s.push(seg(Paint::RedBold, "\u{1f7e5} ERROR:"));
            s.push(seg(Paint::Plain, " "));
            s.push(seg(Paint::Red, message));
            let e = line_to_stderr(s);
            assert(e@.segments =~= seq![(Paint::RedBold, "\u{1f7e5} ERROR:"@), (Paint::Plain, " "@), (Paint::Red, message@)]);
            emit(out, e);
        }
        assert(evs(out@) =~= closed + error_emits(self.mode, message@));
    }

    /// Record a finished tool call.
    fn record_tool(&mut self, t: ToolExecution)
        ensures
            final(self).tools@ == old(self).tools@.push(t),
            final(self).mode == old(self).mode,
            final(self).thinking_content == old(self).thinking_content,
            final(self).text_content == old(self).text_content,
            final(self).text_tokens == old(self).text_tokens,
            final(self).thinking_tokens == old(self).thinking_tokens,
            final(self).in_thinking == old(self).in_thinking,
            final(self).in_text == old(self).in_text,
            final(self).current_tool == old(self).current_tool,
    {
        self.tools.push(t);
    }

    /// A tool part: a new pending or running call opens a tool block; a
    /// finished call is recorded (with its duration) and its result shown;
    /// in verbose mode only is anything shown (see [`tool_part_step`] and
    /// [`tool_emits`]).
    pub fn handle_tool_part(&mut self, tool: &str, call_id: &str, state: &ToolState, out: &mut Vec<Emit>)
        ensures
            tool_part_step(*old(self), *final(self), tool@, call_id@, *state),
            evs(final(out)@) == evs(old(out)@) + tool_emits(*old(self), tool@, call_id@, *state),
    {
        let ghost pre = *self;
        let ghost base = evs(out@);
        match state {
            ToolState::Pending { input, .. } => {
                self.open_call(tool, call_id, input.as_str(), out);
            },
            ToolState::Running { input, .. } => {
                self.open_call(tool, call_id, input.as_str(), out);
            },
            ToolState::Completed { input, output, title, time } => {
                let duration_ms = match time.end {
                    Some(e) => Some(e.saturating_sub(time.start)),
                    None => None,
                };
                self.record_tool(ToolExecution {
                    name: owned(tool),
                    call_id: owned(call_id),
                    input: owned(input.as_str()),
                    output: Some(owned(output.as_str())),
                    error: None,
                    duration_ms,
                });
                assert(duration_ms == tool_duration(time.start, time.end));
                if self.mode == OutputMode::Verbose {
                    show_result(tool, output.as_str(), title.as_str(), duration_ms, out);
                }
                self.current_tool = None;
                assert(self.tools@.drop_last() =~= pre.tools@);
                assert(evs(out@) =~= base + tool_emits(pre, tool@, call_id@, *state));
            },
            ToolState::Error { input, error, time } => {
                let duration_ms = match time.end {
                    Some(e) => Some(e.saturating_sub(time.start)),
                    None => None,
                };
                self.record_tool(ToolExecution {
                    name: owned(tool),
                    call_id: owned(call_id),
                    input: owned(input.as_str()),
                    output: None,
                    error: Some(owned(error.as_str())),
                    duration_ms,
                });
                if self.mode == OutputMode::Verbose {
                    emit(out, blank_stderr());
                    let mut a = Vec::new();
                    a.push(seg(Paint::RedBold, "\u{1f7e5} TOOL ERROR:"));
                    a.push(seg(Paint::Plain, " "));
                    a.push(seg(Paint::Red, tool));
                    let e = line_to_stderr(a);
                    assert(e@.segments =~= seq![(Paint::RedBold, "\u{1f7e5} TOOL ERROR:"@), (Paint::Plain, " "@), (Paint::Red, tool@)]);
                    emit(out, e);
                    let mut b = Vec::new();
                    b.push(seg(Paint::Plain, "   "));
                    b.push(seg(Paint::Red, error.as_str()));
                    let e = line_to_stderr(b);
                    assert(e@.segments =~= seq![(Paint::Plain, "   "@), (Paint::Red, error@)]);
                    emit(out, e);
                }
                self.current_tool = None;
                assert(self.tools@.drop_last() =~= pre.tools@);
                assert(evs(out@) =~= base + tool_emits(pre, tool@, call_id@, *state));
            },
        }
    }

    /// A pending or running call: unless it is the current call, the
    /// open blocks are closed, it becomes the current call and (verbose
    /// mode) it is shown.
    fn open_call(&mut self, tool: &str, call_id: &str, input: &str, out: &mut Vec<Emit>)
        ensures
            call_step(*old(self), *final(self), call_id@),
            final(self).mode == old(self).mode,
            final(self).thinking_content == old(self).thinking_content,
            final(self).text_content == old(self).text_content,
            final(self).text_tokens == old(self).text_tokens,
            final(self).thinking_tokens == old(self).thinking_tokens,
            evs(final(out)@) == evs(old(out)@) + call_emits(*old(self), tool@, call_id@, input@),
    {
        let ghost pre = *self;
        let ghost base = evs(out@);
        let same = match &self.current_tool {
            Some(c) => str_eq(c.as_str(), call_id),
            None => false,
        };
        if !same {
            self.end_current_output(out);
            self.current_tool = Some(owned(call_id));
            if self.mode == OutputMode::Verbose {
                show_call(tool, call_id, input, out);
            }
        }
        assert(evs(out@) =~= base + call_emits(pre, tool@, call_id@, input@));
    }

    /// A part of the turn: tool parts are shown as calls and results;
    /// a patch lists the files it changed (verbose mode only); text and
    /// thinking arrive as streamed pieces instead, so nothing is done for
    /// them.
    pub fn handle_part(&mut self, part: &Part, out: &mut Vec<Emit>)
        ensures
            match *part {
                Part::Tool { tool, call_id, state, .. } => {
                    &&& tool_part_step(*old(self), *final(self), tool@, call_id@, state)
                    &&& evs(final(out)@) == evs(old(out)@) + tool_emits(*old(self), tool@, call_id@, state)
                },
                Part::Patch { files, .. } => {
                    &&& evs(final(out)@) == evs(old(out)@) + patch_emits(*old(self), sv(files@))
                    &&& final(self).mode == old(self).mode
                    &&& final(self).current_tool == old(self).current_tool
                    &&& final(self).tools@ == old(self).tools@
                    &&& final(self).thinking_content == old(self).thinking_content
                    &&& final(self).text_content == old(self).text_content
                    &&& final(self).text_tokens == old(self).text_tokens
                    &&& final(self).thinking_tokens == old(self).thinking_tokens
                    &&& if old(self).mode == OutputMode::Verbose {
                        !final(self).in_thinking && !final(self).in_text
                    } else {
                        final(self).in_thinking == old(self).in_thinking && final(self).in_text == old(self).in_text
                    }
                },
                _ => *final(self) == *old(self) && final(out)@ == old(out)@,
            },
    {
        let ghost base = evs(out@);
        let ghost pre = *self;
        match part {
            Part::Tool { tool, call_id, state, .. } => {
                self.handle_tool_part(tool.as_str(), call_id.as_str(), state, out);
            },
            Part::Patch { files, .. } => {
                if self.mode == OutputMode::Verbose {
                    self.end_current_output(out);
                    emit(out, blank_stderr());
                    let mut a = Vec::new();
                    a.push(seg(Paint::CyanBold, "\u{1f4dd} FILES MODIFIED"));
                    let e = line_to_stderr(a);
                    assert(e@.segments =~= seq![(Paint::CyanBold, "\u{1f4dd} FILES MODIFIED"@)]);
                    emit(out, e);
                    let ghost head = evs(out@);
                    let ghost f = |x: Seq<char>| err_line(seq![(Paint::Plain, "   "@), (Paint::Yellow, x)]);
                    let mut i: usize = 0;
                    while i < files.len()
                        invariant
                            i <= files@.len(),
                            f == (|x: Seq<char>| err_line(seq![(Paint::Plain, "   "@), (Paint::Yellow, x)])),
                            evs(out@) == head + sv(files@).take(i as int).map_values(f),
                        decreases files@.len() - i,
                    {
                        let mut l = Vec::new();
                        l.push(seg(Paint::Plain, "   "));
                        l.push(seg(Paint::Yellow, files[i].as_str()));
                        let e = line_to_stderr(l);
                        assert(e@.segments =~= seq![(Paint::Plain, "   "@), (Paint::Yellow, files@[i as int]@)]);
                        emit(out, e);
                        assert(sv(files@).take(i + 1).map_values(f) =~= sv(files@).take(i as int).map_values(f).push(
                            f(files@[i as int]@),
                        ));
                        i = i + 1;
                    }
                    assert(sv(files@).take(files@.len() as int) =~= sv(files@));
                }
                assert(evs(out@) =~= base + patch_emits(pre, sv(files@)));
            },
            _ => {
                assert(evs(out@) =~= base);
            },
        }
    }
}

/// Show a new tool call (verbose mode): its name, id and input.
fn show_call(tool: &str, call_id: &str, input: &str, out: &mut Vec<Emit>)
    ensures
        evs(final(out)@) == evs(old(out)@) + seq![
            blank_line(),
            err_line(seq![(Paint::GreenBold, "\u{1f7e9} TOOL CALL:"@), (Paint::Plain, " "@), (Paint::GreenBold, tool@)]),
            err_line(seq![(Paint::Dimmed, "   Call ID:"@), (Paint::Plain, " "@), (Paint::Dimmed, call_id@)]),
            err_line(seq![(Paint::Dimmed, "   Input:"@), (Paint::Plain, " "@), (Paint::DimmedJson, input@)]),
        ],
{
    let ghost base = evs(out@);
    emit(out, blank_stderr());
    let mut a = Vec::new();
    a.push(seg(Paint::GreenBold, "\u{1f7e9} TOOL CALL:"));
    a.push(seg(Paint::Plain, " "));
    a.push(seg(Paint::GreenBold, tool));
    let e = line_to_stderr(a);
    assert(e@.segments =~= seq![(Paint::GreenBold, "\u{1f7e9} TOOL CALL:"@), (Paint::Plain, " "@), (Paint::GreenBold, tool@)]);
    emit(out, e);
    let mut b = Vec::new();
    b.push(seg(Paint::Dimmed, "   Call ID:"));
    b.push(seg(Paint::Plain, " "));
    b.push(seg(Paint::Dimmed, call_id));
    let e = line_to_stderr(b);
    assert(e@.segments =~= seq![(Paint::Dimmed, "   Call ID:"@), (Paint::Plain, " "@), (Paint::Dimmed, call_id@)]);
    emit(out, e);
    let mut c = Vec::new();
    c.push(seg(Paint::Dimmed, "   Input:"));
    c.push(seg(Paint::Plain, " "));
    c.push(seg(Paint::DimmedJson, input));
    let e = line_to_stderr(c);
    assert(e@.segments =~= seq![(Paint::Dimmed, "   Input:"@), (Paint::Plain, " "@), (Paint::DimmedJson, input@)]);
    emit(out, e);
    assert(evs(out@) =~= base + seq![
        blank_line(),
        err_line(seq![(Paint::GreenBold, "\u{1f7e9} TOOL CALL:"@), (Paint::Plain, " "@), (Paint::GreenBold, tool@)]),
        err_line(seq![(Paint::Dimmed, "   Call ID:"@), (Paint::Plain, " "@), (Paint::Dimmed, call_id@)]),
        err_line(seq![(Paint::Dimmed, "   Input:"@), (Paint::Plain, " "@), (Paint::DimmedJson, input@)]),
    ]);
}

/// Show a finished call's result (verbose mode): the header with the
/// duration, the title when there is one, and the output's lines.
fn show_result(tool: &str, output: &str, title: &str, duration_ms: Option<u64>, out: &mut Vec<Emit>)
    ensures
        evs(final(out)@) == evs(old(out)@) + result_emits(tool@, title@, output@, ms_or_zero(duration_ms)),
{
    let ghost base = evs(out@);
    emit(out, blank_stderr());
    let mut a = Vec::new();
    a.push(seg(Paint::YellowBold, "\u{1f7e8} TOOL RESULT:"));
    a.push(seg(Paint::Plain, " "));
    a.push(seg(Paint::Yellow, tool));
    a.push(seg(Paint::Plain, " "));
    let mut d = lit("(");
    let ms = decimal_of(match duration_ms {
        Some(v) => v,
        None => 0,
    } as u128);
    push_all(&mut d, &ms);
    push_str(&mut d, "ms)");
    let ghost dur: nat = ms_or_zero(duration_ms);
    assert(d@ =~= "("@ + decimal(dur) + "ms)"@);
    a.push(Segment { paint: Paint::Dimmed, text: string_from_chars(&d) });
    let e = line_to_stderr(a);
    assert(e@.segments =~= seq![
        (Paint::YellowBold, "\u{1f7e8} TOOL RESULT:"@),
        (Paint::Plain, " "@),
        (Paint::Yellow, tool@),
        (Paint::Plain, " "@),
        (Paint::Dimmed, "("@ + decimal(dur) + "ms)"@),
    ]);
    emit(out, e);
    let tc = chars_of(title);
    if tc.len() > 0 {
        let mut b = Vec::new();
        b.push(seg(Paint::Plain, "   "));
        b.push(seg(Paint::Dimmed, title));
        let e = line_to_stderr(b);
        assert(e@.segments =~= seq![(Paint::Plain, "   "@), (Paint::Dimmed, title@)]);
        emit(out, e);
    }
    show_output(output, out);
    assert(evs(out@) =~= base + result_emits(tool@, title@, output@, ms_or_zero(duration_ms)));
}

/// Show the lines of a tool's output (see [`output_emits`]).
fn show_output(output: &str, out: &mut Vec<Emit>)
    ensures
        evs(final(out)@) == evs(old(out)@) + output_emits(output@),
{
    let ghost base = evs(out@);
    let oc = chars_of(output);
    let ls = lines_of(&oc);
    let limit: usize = if ls.len() <= 20 { ls.len() } else { 15 };
    let ghost f = |l: Seq<char>| err_line(seq![(Paint::Plain, "   "@), (Paint::Yellow, l)]);
    let mut i: usize = 0;
    while i < limit
        invariant
            i <= limit <= ls@.len(),
            f == (|l: Seq<char>| err_line(seq![(Paint::Plain, "   "@), (Paint::Yellow, l)])),
            evs(out@) == base + dv(ls@).take(i as int).map_values(f),
        decreases limit - i,
    {
        let mut l = Vec::new();
        l.push(seg(Paint::Plain, "   "));
        l.push(Segment { paint: Paint::Yellow, text: string_from_chars(&ls[i]) });
        let e = line_to_stderr(l);
        assert(e@.segments =~= seq![(Paint::Plain, "   "@), (Paint::Yellow, dv(ls@)[i as int])]);
        emit(out, e);
        assert(dv(ls@).take(i + 1).map_values(f) =~= dv(ls@).take(i as int).map_values(f).push(
            f(dv(ls@)[i as int]),
        ));
        i = i + 1;
    }
    if ls.len() > 20 {
        let mut l = Vec::new();
        l.push(seg(Paint::Plain, "   "));
        l.push(seg(Paint::Yellow, "..."));
        let mut more = lit(" (");
        let k = decimal_of((ls.len() - 15) as u128);
        push_all(&mut more, &k);
        push_str(&mut more, " more lines)");
        l.push(Segment { paint: Paint::Plain, text: string_from_chars(&more) });
        let e = line_to_stderr(l);
        assert(e@.segments =~= seq![
            (Paint::Plain, "   "@),
            (Paint::Yellow, "..."@),
            (Paint::Plain, " ("@ + decimal((ls@.len() - 15) as nat) + " more lines)"@),
        ]);
        emit(out, e);
    } else {
        assert(dv(ls@).take(ls@.len() as int) =~= dv(ls@));
    }
    assert(evs(out@) =~= base + output_emits(output@));
}

} // verus!
