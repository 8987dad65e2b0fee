//! One turn of an agent, as a state machine: between model replies and tool
//! runs it decides what is recorded in the turn's parts, what the model is
//! told, when to ask the model again and when the turn ends. Asking the
//! model and running tools is outside work; its outcome comes back as an
//! event.
use vstd::prelude::*;
use crate::text::{chars_of, concat_str, owned};
use crate::types::{CacheTokens, Message, MessagePath, MessageTime, Part, TokenUsage, ToolState, ToolTime};
use crate::store::MessageWithParts;
use crate::agent::{AgentInfo, tool_decision};
use crate::react::{denial_note, plan_call, turn_step, CallPlan, LlmToolCall, TurnStep};
use crate::tools::{ReportView, ToolReport, ToolStatus};

verus! {

/// The tool call being run: its id, the tool, the arguments, the id of its
/// part and when it started.
pub struct RunningCall {
    pub call_id: String,
    pub tool: String,
    pub input: String,
    pub part_id: String,
    pub start: u64,
}

/// Where a turn stands: the session and message it belongs to, the model
/// calls made so far, the parts recorded, the call being run, and whether
/// the turn is over.
pub struct TurnState {
    pub session_id: String,
    pub message_id: String,
    pub iteration: u32,
    pub parts: Vec<Part>,
    pub running: Option<RunningCall>,
    pub done: bool,
}

/// What happened outside since the last decision.
pub enum TurnEvent {
    /// An iteration begins; `aborted` tells whether the session was aborted.
    IterationStart { aborted: bool },
    /// The model asked for `call`; `command` is its `command` argument when
    /// that is a string, `nonce` a fresh identifier for the part it gets,
    /// `start` the time, and `aborted` whether the session was aborted.
    CallRequested { call: LlmToolCall, command: Option<String>, nonce: String, start: u64, aborted: bool },
    /// The call being run finished with `report` at time `end`.
    ToolFinished { report: ToolReport, end: u64 },
    /// The model answered without tool calls, with this text and reasoning
    /// (streamed under the part ids given).
    Answered { text_id: String, text: String, thinking_id: String, reasoning: String },
}

/// What is to be done next.
pub enum TurnAction {
    /// Ask the model.
    CallModel,
    /// Stop the turn with the error "Session aborted".
    Abort,
    /// Show `shown` and run the tool.
    RunTool { call_id: String, tool: String, shown: Part },
    /// Show `shown` and answer the call `call_id` with `content`.
    Reply { call_id: String, content: String, shown: Part },
    /// Show `shown`; the turn is over and its parts are final.
    Finish { shown: Vec<Part> },
    /// The event does not fit the state; nothing changes.
    Ignore,
}

/// `p` is a text part with these fields.
pub open spec fn text_part_is(p: Part, id: Seq<char>, session: Seq<char>, message: Seq<char>, text: Seq<char>) -> bool {
    p matches Part::Text { id: i, session_id: s, message_id: m, text: t } && i@ == id && s@ == session
        && m@ == message && t@ == text
}

/// `p` is a thinking part with these fields.
pub open spec fn thinking_part_is(p: Part, id: Seq<char>, session: Seq<char>, message: Seq<char>, text: Seq<char>) -> bool {
    p matches Part::Thinking { id: i, session_id: s, message_id: m, text: t } && i@ == id && s@ == session
        && m@ == message && t@ == text
}

/// `st` is the pending state of a call with arguments `input`.
pub open spec fn pending_state_is(st: ToolState, input: Seq<char>) -> bool {
    st matches ToolState::Pending { input: x, raw: y } && x@ == input && y@ == input
}

/// `st` is the final state of a call of `tool` with arguments `input` that
/// ran from `start` to `end` and reported `r`: completed, with the
/// report's output (empty for a failed call), titled with the tool's name.
pub open spec fn finished_state_is(st: ToolState, tool: Seq<char>, input: Seq<char>, r: ReportView, start: u64, end: u64) -> bool {
    st matches ToolState::Completed { input: x, output: o, title: t, time } && x@ == input && o@ == r.output && t@
        == tool && time == (ToolTime { start, end: Some(end) })
}

/// `p` is the pending part of a call: id, session, message, call id,
/// tool, and the arguments as both input and raw text.
pub open spec fn pending_part_is(
    p: Part,
    id: Seq<char>,
    session: Seq<char>,
    message: Seq<char>,
    call_id: Seq<char>,
    tool: Seq<char>,
    input: Seq<char>,
) -> bool {
    p matches Part::Tool { id: i, session_id: s, message_id: m, call_id: c, tool: t, state: st } && i@ == id
        && s@ == session && m@ == message && c@ == call_id && t@ == tool && pending_state_is(st, input)
}

/// `p` is the part of the finished call `rc`, which reported `r` at `end`.
pub open spec fn finished_part_is(p: Part, session: Seq<char>, message: Seq<char>, rc: RunningCall, r: ReportView, end: u64) -> bool {
    p matches Part::Tool { id: i, session_id: s, message_id: m, call_id: c, tool: t, state: st } && i@ == rc.part_id@
        && s@ == session && m@ == message && c@ == rc.call_id@ && t@ == rc.tool@ && finished_state_is(
        st,
        rc.tool@,
        rc.input@,
        r,
        rc.start,
        end,
    )
}

/// `ps` are the parts of a final answer: the thinking part when there was
/// reasoning, then the text part when there was text.
pub open spec fn answer_parts_are(
    ps: Seq<Part>,
    session: Seq<char>,
    message: Seq<char>,
    text_id: Seq<char>,
    text: Seq<char>,
    thinking_id: Seq<char>,
    reasoning: Seq<char>,
) -> bool {
    &&& ps.len() == (if reasoning.len() > 0 { 1int } else { 0int }) + (if text.len() > 0 { 1int } else { 0int })
    &&& reasoning.len() > 0 ==> thinking_part_is(ps[0], thinking_id, session, message, reasoning)
    &&& text.len() > 0 ==> text_part_is(ps[ps.len() - 1], text_id, session, message, text)
}

/// The view of an optional command argument.
pub open spec fn command_view(c: Option<String>) -> Option<Seq<char>> {
    match c {
        Some(s) => Some(s@),
        None => None,
    }
}

fn text_part(id: &String, session: &String, message: &String, text: &String) -> (p: Part)
    ensures
        text_part_is(p, id@, session@, message@, text@),
{
    Part::Text {
        id: owned(id.as_str()),
        session_id: owned(session.as_str()),
        message_id: owned(message.as_str()),
        text: owned(text.as_str()),
    }
}

fn thinking_part(id: &String, session: &String, message: &String, text: &String) -> (p: Part)
    ensures
        thinking_part_is(p, id@, session@, message@, text@),
{
    Part::Thinking {
        id: owned(id.as_str()),
        session_id: owned(session.as_str()),
        message_id: owned(message.as_str()),
        text: owned(text.as_str()),
    }
}

fn pending_part(id: &String, session: &String, message: &String, call_id: &String, tool: &String, input: &String) -> (p: Part)
    ensures
        pending_part_is(p, id@, session@, message@, call_id@, tool@, input@),
{
    Part::Tool {
        id: owned(id.as_str()),
        session_id: owned(session.as_str()),
        message_id: owned(message.as_str()),
        call_id: owned(call_id.as_str()),
        tool: owned(tool.as_str()),
        state: ToolState::Pending { input: owned(input.as_str()), raw: owned(input.as_str()) },
    }
}

fn finished_part(session: &String, message: &String, rc: &RunningCall, report: &ToolReport, end: u64) -> (p: Part)
    ensures
        finished_part_is(p, session@, message@, *rc, report@, end),
{
    let time = ToolTime { start: rc.start, end: Some(end) };
    let state = ToolState::Completed {
        input: owned(rc.input.as_str()),
        output: owned(report.output.as_str()),
        title: owned(rc.tool.as_str()),
        time,
    };
    Part::Tool {
        id: owned(rc.part_id.as_str()),
        session_id: owned(session.as_str()),
        message_id: owned(message.as_str()),
        call_id: owned(rc.call_id.as_str()),
        tool: owned(rc.tool.as_str()),
        state,
    }
}

impl TurnState {
    /// A turn of message `message_id` in session `session_id`, before its
    /// first iteration.
    pub fn new(session_id: &str, message_id: &str) -> (r: TurnState)
        ensures
            r.session_id@ == session_id@,
            r.message_id@ == message_id@,
            r.iteration == 0,
            r.parts@.len() == 0,
            r.running is None,
            !r.done,
    {
        TurnState {
            session_id: owned(session_id),
            message_id: owned(message_id),
            iteration: 0,
            parts: Vec::new(),
            running: None,
            done: false,
        }
    }

    /// The decision after `ev`. A turn makes at most ten model calls; a
    /// refused call is recorded as an error text part and answered with
    /// `Error: ` and the reason; a call that runs is shown pending, then
    /// recorded completed and answered with its output (empty when it
    /// failed); an answer without calls records the thinking part, then the
    /// text part, and ends the turn; an aborted session ends it with an
    /// error.
    pub fn next(&mut self, agent: &AgentInfo, ev: TurnEvent) -> (a: TurnAction)
        ensures
            final(self).session_id == old(self).session_id,
            final(self).message_id == old(self).message_id,
            old(self).done ==> a is Ignore && *final(self) == *old(self),
            !old(self).done ==> match ev {
                TurnEvent::IterationStart { aborted } => {
                    if old(self).running is Some {
                        a is Ignore && *final(self) == *old(self)
                    } else if old(self).iteration >= 10 {
                        &&& a matches TurnAction::Finish { shown } && shown@.len() == 0
                        &&& final(self).done && final(self).running is None
                        &&& final(self).iteration == old(self).iteration
                        &&& final(self).parts@ == old(self).parts@
                    } else if aborted {
                        &&& a is Abort
                        &&& final(self).done && final(self).running is None
                        &&& final(self).iteration == old(self).iteration
                        &&& final(self).parts@ == old(self).parts@
                    } else {
                        &&& a is CallModel
                        &&& !final(self).done && final(self).running is None
                        &&& final(self).iteration == old(self).iteration + 1
                        &&& final(self).parts@ == old(self).parts@
                    }
                },
                TurnEvent::CallRequested { call, command, nonce, start, aborted } => {
                    if old(self).running is Some {
                        a is Ignore && *final(self) == *old(self)
                    } else {
                        match tool_decision(agent@, call.name@, command_view(command)) {
                            Err(e) => {
                                &&& a matches TurnAction::Reply { call_id, content, shown } && call_id@ == call.id@
                                    && content@ == "Error: "@ + e && text_part_is(
                                    shown,
                                    "part-error-"@ + nonce@,
                                    old(self).session_id@,
                                    old(self).message_id@,
                                    denial_note(call.name@, e),
                                )
                                &&& final(self).parts@.len() == old(self).parts@.len() + 1
                                &&& final(self).parts@.drop_last() == old(self).parts@
                                &&& text_part_is(
                                    final(self).parts@.last(),
                                    "part-error-"@ + nonce@,
                                    old(self).session_id@,
                                    old(self).message_id@,
                                    denial_note(call.name@, e),
                                )
                                &&& !final(self).done && final(self).running is None
                                &&& final(self).iteration == old(self).iteration
                            },
                            Ok(()) => {
                                if aborted {
                                    &&& a is Abort
                                    &&& final(self).done && final(self).running is None
                                    &&& final(self).iteration == old(self).iteration
                                    &&& final(self).parts@ == old(self).parts@
                                } else {
                                    &&& a matches TurnAction::RunTool { call_id, tool, shown } && call_id@ == call.id@
                                        && tool@ == call.name@ && pending_part_is(
                                        shown,
                                        "part-tool-"@ + nonce@,
                                        old(self).session_id@,
                                        old(self).message_id@,
                                        call.id@,
                                        call.name@,
                                        call.arguments@,
                                    )
                                    &&& final(self).running matches Some(rc) && rc.call_id@ == call.id@ && rc.tool@
                                        == call.name@ && rc.input@ == call.arguments@ && rc.part_id@ == "part-tool-"@
                                        + nonce@ && rc.start == start
                                    &&& !final(self).done
                                    &&& final(self).iteration == old(self).iteration
                                    &&& final(self).parts@ == old(self).parts@
                                }
                            },
                        }
                    }
                },
                TurnEvent::ToolFinished { report, end } => {
                    match old(self).running {
                        None => a is Ignore && *final(self) == *old(self),
                        Some(rc) => {
                            &&& a matches TurnAction::Reply { call_id, content, shown } && call_id@ == rc.call_id@
                                && content@ == report@.output && finished_part_is(
                                shown,
                                old(self).session_id@,
                                old(self).message_id@,
                                rc,
                                report@,
                                end,
                            )
                            &&& final(self).parts@.len() == old(self).parts@.len() + 1
                            &&& final(self).parts@.drop_last() == old(self).parts@
                            &&& finished_part_is(
                                final(self).parts@.last(),
                                old(self).session_id@,
                                old(self).message_id@,
                                rc,
                                report@,
                                end,
                            )
                            &&& !final(self).done && final(self).running is None
                            &&& final(self).iteration == old(self).iteration
                        },
                    }
                },
                TurnEvent::Answered { text_id, text, thinking_id, reasoning } => {
                    if old(self).running is Some {
                        a is Ignore && *final(self) == *old(self)
                    } else {
                        &&& a matches TurnAction::Finish { shown } && answer_parts_are(
                            shown@,
                            old(self).session_id@,
                            old(self).message_id@,
                            text_id@,
                            text@,
                            thinking_id@,
                            reasoning@,
                        )
                        &&& final(self).parts@.take(old(self).parts@.len() as int) == old(self).parts@
                        &&& answer_parts_are(
                            final(self).parts@.skip(old(self).parts@.len() as int),
                            old(self).session_id@,
                            old(self).message_id@,
                            text_id@,
                            text@,
                            thinking_id@,
                            reasoning@,
                        )
                        &&& final(self).done && final(self).running is None
                        &&& final(self).iteration == old(self).iteration
                    }
                },
            },
    {
        if self.done {
            return TurnAction::Ignore;
        }
        match ev {
            TurnEvent::IterationStart { aborted } => {
                if self.running.is_some() {
                    return TurnAction::Ignore;
                }
                match turn_step(self.iteration, aborted) {
                    TurnStep::Finish => {
                        self.done = true;
                        TurnAction::Finish { shown: Vec::new() }
                    },
                    TurnStep::Abort => {
                        self.done = true;
                        TurnAction::Abort
                    },
                    TurnStep::CallModel => {
                        self.iteration = self.iteration + 1;
                        TurnAction::CallModel
                    },
                }
            },
            TurnEvent::CallRequested { call, command, nonce, start, aborted } => {
                if self.running.is_some() {
                    return TurnAction::Ignore;
                }
                let plan = match &command {
                    Some(c) => plan_call(agent, call.name.as_str(), Some(c.as_str())),
                    None => plan_call(agent, call.name.as_str(), None),
                };
                match plan {
                    CallPlan::Denied { note, reply } => {
                        let id = concat_str("part-error-", nonce.as_str());
                        proof {
                            reveal_strlit("part-error-");
                        }
                        let kept = text_part(&id, &self.session_id, &self.message_id, &note);
                        let shown = text_part(&id, &self.session_id, &self.message_id, &note);
                        self.parts.push(kept);
                        TurnAction::Reply { call_id: call.id, content: reply, shown }
                    },
                    CallPlan::Run => {
                        if aborted {
                            self.done = true;
                            return TurnAction::Abort;
                        }
                        let id = concat_str("part-tool-", nonce.as_str());
                        proof {
                            reveal_strlit("part-tool-");
                        }
                        let shown = pending_part(
                            &id,
                            &self.session_id,
                            &self.message_id,
                            &call.id,
                            &call.name,
                            &call.arguments,
                        );
                        self.running = Some(
                            RunningCall {
                                call_id: owned(call.id.as_str()),
                                tool: owned(call.name.as_str()),
                                input: owned(call.arguments.as_str()),
                                part_id: id,
                                start,
                            },
                        );
                        TurnAction::RunTool { call_id: call.id, tool: call.name, shown }
                    },
                }
            },
            TurnEvent::ToolFinished { report, end } => {
                let (kept, shown, call_id) = match &self.running {
                    None => {
                        return TurnAction::Ignore;
                    },
                    Some(rc) => {
                        let kept = finished_part(&self.session_id, &self.message_id, rc, &report, end);
                        let shown = finished_part(&self.session_id, &self.message_id, rc, &report, end);
                        (kept, shown, owned(rc.call_id.as_str()))
                    },
                };
                self.parts.push(kept);
                self.running = None;
                let content = owned(report.output.as_str());
                TurnAction::Reply { call_id, content, shown }
            },
            TurnEvent::Answered { text_id, text, thinking_id, reasoning } => {
                if self.running.is_some() {
                    return TurnAction::Ignore;
                }
                let ghost before = self.parts@;
                let mut shown: Vec<Part> = Vec::new();
                if chars_of(reasoning.as_str()).len() > 0 {
                    let kept = thinking_part(&thinking_id, &self.session_id, &self.message_id, &reasoning);
                    self.parts.push(kept);
                    shown.push(thinking_part(&thinking_id, &self.session_id, &self.message_id, &reasoning));
                }
                if chars_of(text.as_str()).len() > 0 {
                    let kept = text_part(&text_id, &self.session_id, &self.message_id, &text);
                    self.parts.push(kept);
                    shown.push(text_part(&text_id, &self.session_id, &self.message_id, &text));
                }
                assert(self.parts@.take(before.len() as int) =~= before);
                self.done = true;
                TurnAction::Finish { shown }
            },
        }
    }
}

/// The assistant message of a finished turn: its id, session and parts,
/// the agent as its mode, the model and provider that answered, the
/// working directory as path, created and completed at `now`, with the
/// tokens used and the cost (as the bits of an `f64`).
pub fn assistant_message(
    message_id: &str,
    session_id: &str,
    agent_id: &str,
    parts: Vec<Part>,
    model_id: &str,
    provider_id: &str,
    dir: &str,
    now: u64,
    tokens_in: u64,
    tokens_out: u64,
    cost_bits: u64,
) -> (m: MessageWithParts)
    ensures
        m.parts == parts,
        m.info matches Message::Assistant {
            id,
            session_id: s,
            parent_id,
            model_id: mi,
            provider_id: pi,
            mode,
            time,
            path,
            cost_bits: c,
            tokens,
            error,
            summary,
            metadata,
        } && id@ == message_id@ && s@ == session_id@ && parent_id@ == Seq::<char>::empty() && mi@ == model_id@
            && pi@ == provider_id@ && mode@ == agent_id@ && time == (MessageTime { created: now, completed: Some(now) })
            && path.cwd@ == dir@ && path.root@ == dir@ && c == cost_bits && tokens == (TokenUsage {
            input: tokens_in,
            output: tokens_out,
            reasoning: 0,
            cache: CacheTokens { read: 0, write: 0 },
        }) && error is None && summary is None && metadata is None,
{
    proof {
        reveal_strlit("");
    }
    MessageWithParts {
        info: Message::Assistant {
            id: owned(message_id),
            session_id: owned(session_id),
            parent_id: owned(""),
            model_id: owned(model_id),
            provider_id: owned(provider_id),
            mode: owned(agent_id),
            time: MessageTime { created: now, completed: Some(now) },
            path: MessagePath { cwd: owned(dir), root: owned(dir) },
            cost_bits,
            tokens: TokenUsage { input: tokens_in, output: tokens_out, reasoning: 0, cache: CacheTokens { read: 0, write: 0 } },
            error: None,
            summary: None,
            metadata: None,
        },
        parts,
    }
}

} // verus!
