//! Verified pairs: a worker agent (executor or planner) and a judge
//! (arbiter or architect) take turns until the judge calls
//! `task_complete` or the steps run out. Running an agent's turn is outside
//! work; what happens next is decided here.
use vstd::prelude::*;
use crate::text::{
    chars_of, concat_str, contains, decimal, decimal_of, find, find_in, has_substring, lemma_find_from, lit, owned,
    push_all, push_str, slice_to_vec, str_eq, string_from_chars, occurs_at, lemma_find_at, lemma_absent,
    lemma_find_absent,
};
use crate::tools::info::completion_text;
use crate::types::{AgentToolCall, Message, MessageTime, Part, TaskCompleteInfo, ToolState};
use crate::store::{MessageWithParts, now_millis, is_uuid_text, random_uuid};

verus! {

/// `s` split at `p`, second piece: the text between the first and the
/// second occurrence of `p` (or the end), if `p` occurs.
pub open spec fn second_piece(s: Seq<char>, p: Seq<char>) -> Option<Seq<char>> {
    let k = find(s, p);
    if k < 0 {
        None
    } else {
        let rest = s.skip(k + p.len());
        let k2 = find(rest, p);
        Some(if k2 < 0 { rest } else { rest.take(k2) })
    }
}

/// `s` up to the first occurrence of `p` (all of it if `p` does not occur).
pub open spec fn first_piece(s: Seq<char>, p: Seq<char>) -> Seq<char> {
    let k = find(s, p);
    if k < 0 {
        s
    } else {
        s.take(k)
    }
}

/// The summary and the verification read back from the output of a
/// `task_complete` call.
pub open spec fn completion_of(output: Seq<char>) -> (Seq<char>, Seq<char>) {
    let summary = match second_piece(output, "Summary: "@) {
        Some(s) => first_piece(s, "\n\nVerification:"@),
        None => Seq::empty(),
    };
    let verification = match second_piece(output, "Verification: "@) {
        Some(v) => v,
        None => Seq::empty(),
    };
    (summary, verification)
}

/// The output of a part if it is a completed `task_complete` call whose
/// output says the task is complete.
pub open spec fn completion_output(p: Part) -> Option<Seq<char>> {
    match p {
        Part::Tool { tool, state, .. } => if tool@ == "task_complete"@ {
            match state {
                ToolState::Completed { output, .. } => if contains(output@, "Task complete"@) {
                    Some(output@)
                } else {
                    None
                },
                _ => None,
            }
        } else {
            None
        },
        _ => None,
    }
}

/// The index of the first part that reports completion, or `-1`.
pub open spec fn first_completion(parts: Seq<Part>) -> int
    decreases parts.len(),
{
    if parts.len() == 0 {
        -1
    } else {
        let k = first_completion(parts.drop_last());
        if k >= 0 {
            k
        } else if completion_output(parts.last()) is Some {
            parts.len() - 1
        } else {
            -1
        }
    }
}

/// The completion found in a turn's parts: summary and verification.
pub open spec fn task_completion(parts: Seq<Part>) -> Option<(Seq<char>, Seq<char>)> {
    let k = first_completion(parts);
    if k >= 0 {
        Some(completion_of(completion_output(parts[k])->0))
    } else {
        None
    }
}

/// The duration of a finished tool call.
pub open spec fn call_duration(start: u64, end: Option<u64>) -> u64 {
    let e = match end {
        Some(e) => e,
        None => start,
    };
    if e >= start { (e - start) as u64 } else { 0 }
}

/// The finished tool call a part records, if it is one.
pub open spec fn finished_call(p: Part, agent: Seq<char>, step: u32) -> Option<(Seq<char>, Seq<char>, u32, u64, bool)> {
    match p {
        Part::Tool { tool, state, .. } => match state {
            ToolState::Completed { time, .. } => Some((agent, tool@, step, call_duration(time.start, time.end), true)),
            ToolState::Error { time, .. } => Some((agent, tool@, step, call_duration(time.start, time.end), false)),
            _ => None,
        },
        _ => None,
    }
}

/// The finished tool calls of a turn's parts, in order.
pub open spec fn finished_calls(parts: Seq<Part>, agent: Seq<char>, step: u32) -> Seq<(Seq<char>, Seq<char>, u32, u64, bool)>
    decreases parts.len(),
{
    if parts.len() == 0 {
        Seq::empty()
    } else {
        finished_calls(parts.drop_last(), agent, step) + match finished_call(parts.last(), agent, step) {
            Some(c) => seq![c],
            None => Seq::empty(),
        }
    }
}

/// The content of a recorded tool call.
pub open spec fn call_view(c: AgentToolCall) -> (Seq<char>, Seq<char>, u32, u64, bool) {
    (c.agent@, c.tool@, c.step, c.duration_ms, c.success)
}

/// The contents of recorded tool calls.
pub open spec fn calls_view(v: Seq<AgentToolCall>) -> Seq<(Seq<char>, Seq<char>, u32, u64, bool)> {
    v.map_values(|c: AgentToolCall| call_view(c))
}

/// The second piece of `s` split at `p` (see [`second_piece`]).
fn split_second(s: &[char], p: &[char]) -> (r: Option<Vec<char>>)
    requires
        p@.len() > 0,
    ensures
        match second_piece(s@, p@) {
            Some(x) => r is Some && r->Some_0@ == x,
            None => r is None,
        },
{
    proof {
        lemma_find_from(s@, p@, 0);
    }
    match find_in(s, p, 0) {
        None => None,
        Some(k) => {
            assert(s@.len() == s.len() && p@.len() == p.len());
            assert(k + p@.len() <= s@.len());
            let rest = slice_to_vec(s, k + p.len(), s.len());
            assert(rest@ =~= s@.skip(k + p@.len()));
            proof {
                lemma_find_from(rest@, p@, 0);
            }
            match find_in(&rest, p, 0) {
                None => Some(rest),
                Some(k2) => {
                    let piece = slice_to_vec(&rest, 0, k2);
                    assert(piece@ =~= rest@.take(k2 as int));
                    Some(piece)
                },
            }
        },
    }
}

/// The summary and verification of a `task_complete` output (see
/// [`completion_of`]).
pub fn parse_completion(output: &str) -> (r: TaskCompleteInfo)
    ensures
        (r.summary@, r.verification@) == completion_of(output@),
{
    let o = chars_of(output);
    let sp = lit("Summary: ");
    let vp = lit("Verification: ");
    let sep = lit("\n\nVerification:");
    proof {
        reveal_strlit("Summary: ");
        reveal_strlit("Verification: ");
        reveal_strlit("\n\nVerification:");
    }
    let summary = match split_second(&o, &sp) {
        Some(s) => {
            proof {
                lemma_find_from(s@, sep@, 0);
            }
            match find_in(&s, &sep, 0) {
                Some(k) => {
                    let t = slice_to_vec(&s, 0, k);
                    assert(t@ =~= s@.take(k as int));
                    t
                },
                None => s,
            }
        },
        None => Vec::new(),
    };
    let verification = match split_second(&o, &vp) {
        Some(v) => v,
        None => Vec::new(),
    };
    let r = TaskCompleteInfo { summary: string_from_chars(&summary), verification: string_from_chars(&verification) };
    assert(r.summary@ =~= completion_of(output@).0);
    assert(r.verification@ =~= completion_of(output@).1);
    r
}

/// The completion reported in a turn's parts, if any (see
/// [`task_completion`]).
pub fn find_task_complete(parts: &Vec<Part>) -> (r: Option<TaskCompleteInfo>)
    ensures
        match task_completion(parts@) {
            Some(c) => r is Some && (r->Some_0.summary@, r->Some_0.verification@) == c,
            None => r is None,
        },
{
    let mut i: usize = 0;
    assert(parts@.take(0) =~= Seq::<Part>::empty());
    while i < parts.len()
        invariant
            i <= parts@.len(),
            first_completion(parts@.take(i as int)) == -1,
        decreases parts@.len() - i,
    {
        assert(parts@.take(i as int + 1).drop_last() =~= parts@.take(i as int));
        assert(parts@.take(i as int + 1).last() == parts@[i as int]);
        let found: Option<&String> = match &parts[i] {
            Part::Tool { tool, state, .. } => {
                proof {
                    reveal_strlit("task_complete");
                    reveal_strlit("Task complete");
                }
                if str_eq(tool.as_str(), "task_complete") {
                    match state {
                        ToolState::Completed { output, .. } => {
                            let oc = chars_of(output.as_str());
                            let tc = lit("Task complete");
                            if has_substring(&oc, &tc) {
                                Some(output)
                            } else {
                                None
                            }
                        },
                        _ => None,
                    }
                } else {
                    None
                }
            },
            _ => None,
        };
        match found {
            Some(output) => {
                proof {
                    lemma_first_completion_prefix(parts@, i as int);
                }
                return Some(parse_completion(output.as_str()));
            },
            None => {},
        }
        i = i + 1;
    }
    assert(parts@.take(parts@.len() as int) =~= parts@);
    None
}

proof fn lemma_first_completion_prefix(parts: Seq<Part>, i: int)
    requires
        0 <= i < parts.len(),
        first_completion(parts.take(i)) == -1,
        completion_output(parts[i]) is Some,
    ensures
        first_completion(parts) == i,
    decreases parts.len(),
{
    if i == parts.len() - 1 {
        assert(parts.drop_last() =~= parts.take(i));
    } else {
        assert(parts.drop_last().take(i) =~= parts.take(i));
        lemma_first_completion_prefix(parts.drop_last(), i);
    }
}

/// The finished tool calls of a turn, recorded for `agent` at `step`
/// (see [`finished_calls`]); pending and running calls are left out.
pub fn extract_tool_calls(parts: &Vec<Part>, agent: &str, step: u32) -> (r: Vec<AgentToolCall>)
    ensures
        calls_view(r@) == finished_calls(parts@, agent@, step),
{
    let mut out: Vec<AgentToolCall> = Vec::new();
    let mut i: usize = 0;
    assert(parts@.take(0) =~= Seq::<Part>::empty());
    while i < parts.len()
        invariant
            i <= parts@.len(),
            calls_view(out@) == finished_calls(parts@.take(i as int), agent@, step),
        decreases parts@.len() - i,
    {
        assert(parts@.take(i as int + 1).drop_last() =~= parts@.take(i as int));
        assert(parts@.take(i as int + 1).last() == parts@[i as int]);
        let ghost b = calls_view(out@);
        match &parts[i] {
            Part::Tool { tool, state, .. } => {
                let finished: Option<(bool, u64)> = match state {
                    ToolState::Completed { time, .. } => {
                        let end = match time.end {
                            Some(e) => e,
                            None => time.start,
                        };
                        Some((true, end.saturating_sub(time.start)))
                    },
                    ToolState::Error { time, .. } => {
                        let end = match time.end {
                            Some(e) => e,
                            None => time.start,
                        };
                        Some((false, end.saturating_sub(time.start)))
                    },
                    _ => None,
                };
                match finished {
                    Some((success, duration_ms)) => {
                        let c = AgentToolCall {
                            agent: owned(agent),
                            tool: owned(tool.as_str()),
                            step,
                            duration_ms,
                            success,
                        };
                        out.push(c);
                        assert(calls_view(out@) =~= b + seq![call_view(c)]);
                    },
                    None => {
                        assert(calls_view(out@) =~= b + Seq::<(Seq<char>, Seq<char>, u32, u64, bool)>::empty());
                    },
                }
            },
            _ => {
                assert(calls_view(out@) =~= b + Seq::<(Seq<char>, Seq<char>, u32, u64, bool)>::empty());
            },
        }
        i = i + 1;
    }
    assert(parts@.take(parts@.len() as int) =~= parts@);
    out
}

/// The message sent to the executor with the arbiter's review of `step`.
pub open spec fn feedback_text(step: u32, review: Seq<char>) -> Seq<char> {
    "# Arbiter Feedback (Step "@ + decimal(step as nat) + ")\n\nThe arbiter reviewed your work and has feedback. Address the issues below.\n\n---\n\n"@
        + review
}

/// The executor's feedback message (see [`feedback_text`]).
pub fn executor_feedback(step: u32, review: &str) -> (r: String)
    ensures
        r@ == feedback_text(step, review@),
{
    proof {
        reveal_strlit("# Arbiter Feedback (Step ");
        reveal_strlit(")\n\nThe arbiter reviewed your work and has feedback. Address the issues below.\n\n---\n\n");
    }
    let mut out = lit("# Arbiter Feedback (Step ");
    let d = decimal_of(step as u128);
    push_all(&mut out, &d);
    push_str(&mut out, ")\n\nThe arbiter reviewed your work and has feedback. Address the issues below.\n\n---\n\n");
    push_str(&mut out, review);
    string_from_chars(&out)
}

/// The index of the last user message, or `-1`.
pub open spec fn last_user_index(ms: Seq<MessageWithParts>) -> int
    decreases ms.len(),
{
    if ms.len() == 0 {
        -1
    } else if ms.last().info is User {
        ms.len() - 1
    } else {
        last_user_index(ms.drop_last())
    }
}

/// The last user message of a session's messages.
pub fn last_user_message(ms: &Vec<MessageWithParts>) -> (r: Result<&MessageWithParts, String>)
    ensures
        last_user_index(ms@) >= 0 ==> r is Ok && *r->Ok_0 == ms@[last_user_index(ms@)],
        last_user_index(ms@) < 0 ==> r is Err && r->Err_0@ == "No user message found in session"@,
{
    let mut i: usize = ms.len();
    assert(ms@.take(ms@.len() as int) =~= ms@);
    while i > 0
        invariant
            i <= ms@.len(),
            last_user_index(ms@) == last_user_index(ms@.take(i as int)),
        decreases i,
    {
        assert(ms@.take(i as int).last() == ms@[i - 1]);
        match &ms[i - 1].info {
            Message::User { .. } => {
                return Ok(&ms[i - 1]);
            },
            _ => {},
        }
        assert(ms@.take(i as int).drop_last() =~= ms@.take(i - 1));
        i = i - 1;
    }
    proof {
        assert(ms@.take(0) =~= Seq::<MessageWithParts>::empty());
        reveal_strlit("No user message found in session");
    }
    assert(ms@.take(ms@.len() as int) =~= ms@);
    Err(owned("No user message found in session"))
}

/// A user message with one text part.
pub open spec fn user_message_view(m: MessageWithParts, session_id: Seq<char>, text: Seq<char>, now: u64) -> bool {
    &&& m.info matches Message::User { id, session_id: sid, time, summary, metadata }
        && sid@ == session_id && time.created == now && time.completed == Some(now) && summary is None
        && metadata is None
    &&& m.parts@.len() == 1
    &&& m.parts@[0] matches Part::Text { session_id: psid, message_id, text: t, .. }
        && psid@ == session_id && message_id@ == crate::types::message_id(m.info)@ && t@ == text
}

/// A user message with one text part, with the given ids and time.
pub fn user_message_at(session_id: &str, text: &str, message_id: String, part_id: String, now: u64) -> (r: MessageWithParts)
    ensures
        user_message_view(r, session_id@, text@, now),
        crate::types::message_id(r.info)@ == message_id@,
        crate::types::part_id(r.parts@[0])@ == part_id@,
{
    let mut parts: Vec<Part> = Vec::new();
    parts.push(Part::Text {
        id: part_id,
        session_id: owned(session_id),
        message_id: owned(message_id.as_str()),
        text: owned(text),
    });
    MessageWithParts {
        info: Message::User {
            id: message_id,
            session_id: owned(session_id),
            time: MessageTime { created: now, completed: Some(now) },
            summary: None,
            metadata: None,
        },
        parts,
    }
}

/// A new user message with one text part, with fresh ids
/// (`msg-user-<uuid>` and `part-<uuid>`) and the current time (0 when the
/// clock cannot be read).
pub fn new_user_message(session_id: &str, text: &str) -> (r: MessageWithParts)
    ensures
        exists|t: u64| user_message_view(r, session_id@, text@, t),
        exists|u: Seq<char>| is_uuid_text(u) && crate::types::message_id(r.info)@ == "msg-user-"@ + u,
        exists|u: Seq<char>| is_uuid_text(u) && crate::types::part_id(r.parts@[0])@ == "part-"@ + u,
{
    let mu = random_uuid();
    let pu = random_uuid();
    let mid = concat_str("msg-user-", mu.as_str());
    let pid = concat_str("part-", pu.as_str());
    let now = match now_millis() {
        Ok(t) => t,
        Err(_) => 0,
    };
    user_message_at(session_id, text, mid, pid, now)
}

/// Whose turn is next in a verified pair.
#[derive(Debug, Clone, Copy, PartialEq, Eq, Structural)]
pub enum PairPhase {
    Worker,
    Judge,
    Finished,
}

/// What happened outside since the last decision.
#[derive(Debug, Clone, PartialEq)]
pub enum PairEvent {
    /// The pair was set up and the task sent to both agents.
    Started,
    /// The worker finished its turn with these parts.
    WorkerDone { parts: Vec<Part> },
    /// A person answered in place of the judge with `text`.
    HumanAnswered { text: String },
    /// The judge finished its turn with these parts.
    JudgeDone { parts: Vec<Part> },
}

/// What is to be done next.
#[derive(Debug, Clone, PartialEq)]
pub enum PairAction {
    /// Run the worker's turn of this step.
    RunWorker { step: u32 },
    /// Send the worker's turn to the judge and run the judge's turn.
    RunJudge { step: u32 },
    /// Send the judge's turn back to the worker, then run the worker's
    /// turn of the next step.
    SendBackAndRunWorker { step: u32 },
    /// Send the judge's turn back to the worker; the steps are used up.
    SendBackAndStop { steps: u32 },
    /// Send the person's `text` to the worker, then run the worker's turn
    /// of the next step.
    SendHumanAndRunWorker { text: String, step: u32 },
    /// Send the person's `text` to the worker; the steps are used up.
    SendHumanAndStop { text: String, steps: u32 },
    /// The judge called `task_complete` at this step.
    Complete { step: u32, info: TaskCompleteInfo },
    /// The steps are used up without completion.
    Stop { steps: u32 },
    /// The event does not fit the phase; nothing is done.
    Ignore,
}

/// The state of a verified pair: the current step (from 1), the step
/// limit, whose turn it is, whether a person has answered in place of the
/// judge, and the finished tool calls of both agents.
pub struct PairLoop {
    pub step: u32,
    pub max_steps: u32,
    pub phase: PairPhase,
    pub interrupted: bool,
    pub worker_name: String,
    pub judge_name: String,
    pub tool_calls: Vec<AgentToolCall>,
}

impl PairLoop {
    /// The state is consistent: while the pair runs, the step is within
    /// the limit.
    pub open spec fn wf(&self) -> bool {
        self.phase != PairPhase::Finished ==> 1 <= self.step <= self.max_steps
    }

    /// The state before the pair starts (finished at once when no step is
    /// allowed).
    pub fn new(max_steps: u32, worker_name: &str, judge_name: &str) -> (r: PairLoop)
        ensures
            r.wf(),
            r.step == 1,
            r.max_steps == max_steps,
            r.phase == if max_steps >= 1 { PairPhase::Worker } else { PairPhase::Finished },
            r.worker_name@ == worker_name@,
            r.judge_name@ == judge_name@,
            r.tool_calls@.len() == 0,
            !r.interrupted,
    {
        PairLoop {
            step: 1,
            max_steps,
            phase: if max_steps >= 1 { PairPhase::Worker } else { PairPhase::Finished },
            interrupted: false,
            worker_name: owned(worker_name),
            judge_name: owned(judge_name),
            tool_calls: Vec::new(),
        }
    }

    /// Decide what comes next after `event`, and record it.
    pub fn next(&mut self, event: PairEvent) -> (action: PairAction)
        requires
            old(self).wf(),
        ensures
            final(self).wf(),
            action matches PairAction::RunWorker { step } ==> 1 <= step <= final(self).max_steps,
            action matches PairAction::RunJudge { step } ==> 1 <= step <= final(self).max_steps,
            action matches PairAction::SendBackAndRunWorker { step } ==> 1 <= step <= final(self).max_steps,
            action matches PairAction::Complete { step, .. } ==> 1 <= step <= final(self).max_steps,
            final(self).max_steps == old(self).max_steps,
            final(self).worker_name == old(self).worker_name,
            final(self).judge_name == old(self).judge_name,
            final(self).interrupted == (old(self).interrupted || (old(self).phase == PairPhase::Judge
                && event is HumanAnswered)),
            match (old(self).phase, event) {
                (PairPhase::Worker, PairEvent::Started) => action == PairAction::RunWorker { step: old(self).step }
                    && final(self).phase == PairPhase::Worker && final(self).step == old(self).step
                    && final(self).tool_calls@ == old(self).tool_calls@,
                (PairPhase::Finished, PairEvent::Started) => action == PairAction::Stop { steps: old(self).max_steps }
                    && final(self).phase == PairPhase::Finished && final(self).step == old(self).step
                    && final(self).tool_calls@ == old(self).tool_calls@,
                (PairPhase::Worker, PairEvent::WorkerDone { parts }) => {
                    &&& action == PairAction::RunJudge { step: old(self).step }
                    &&& final(self).phase == PairPhase::Judge
                    &&& final(self).step == old(self).step
                    &&& calls_view(final(self).tool_calls@) == calls_view(old(self).tool_calls@)
                        + finished_calls(parts@, old(self).worker_name@, old(self).step)
                },
                (PairPhase::Judge, PairEvent::HumanAnswered { text }) => {
                    &&& final(self).tool_calls@ == old(self).tool_calls@
                    &&& if old(self).step < old(self).max_steps {
                        action matches PairAction::SendHumanAndRunWorker { text: t, step } && t@ == text@ && step
                            == old(self).step + 1 && final(self).phase == PairPhase::Worker && final(self).step
                            == old(self).step + 1
                    } else {
                        action matches PairAction::SendHumanAndStop { text: t, steps } && t@ == text@ && steps
                            == old(self).max_steps && final(self).phase == PairPhase::Finished
                    }
                },
                (PairPhase::Judge, PairEvent::JudgeDone { parts }) => {
                    &&& calls_view(final(self).tool_calls@) == calls_view(old(self).tool_calls@)
                        + finished_calls(parts@, old(self).judge_name@, old(self).step)
                    &&& match task_completion(parts@) {
                        Some(c) => action matches PairAction::Complete { step, info }
                            && step == old(self).step && (info.summary@, info.verification@) == c
                            && final(self).phase == PairPhase::Finished,
                        None => if old(self).step < old(self).max_steps {
                            action == PairAction::SendBackAndRunWorker { step: (old(self).step + 1) as u32 }
                                && final(self).phase == PairPhase::Worker && final(self).step == old(self).step + 1
                        } else {
                            action == PairAction::SendBackAndStop { steps: old(self).max_steps }
                                && final(self).phase == PairPhase::Finished
                        },
                    }
                },
                _ => action == PairAction::Ignore && final(self).phase == old(self).phase
                    && final(self).step == old(self).step && final(self).tool_calls@ == old(self).tool_calls@,
            },
    {
        match (self.phase, event) {
            (PairPhase::Worker, PairEvent::Started) => PairAction::RunWorker { step: self.step },
            (PairPhase::Finished, PairEvent::Started) => PairAction::Stop { steps: self.max_steps },
            (PairPhase::Worker, PairEvent::WorkerDone { parts }) => {
                let calls = extract_tool_calls(&parts, self.worker_name.as_str(), self.step);
                self.record(calls);
                self.phase = PairPhase::Judge;
                PairAction::RunJudge { step: self.step }
            },
            (PairPhase::Judge, PairEvent::HumanAnswered { text }) => {
                self.interrupted = true;
                if self.step < self.max_steps {
                    self.step = self.step + 1;
                    self.phase = PairPhase::Worker;
                    PairAction::SendHumanAndRunWorker { text, step: self.step }
                } else {
                    self.phase = PairPhase::Finished;
                    PairAction::SendHumanAndStop { text, steps: self.max_steps }
                }
            },
            (PairPhase::Judge, PairEvent::JudgeDone { parts }) => {
                let calls = extract_tool_calls(&parts, self.judge_name.as_str(), self.step);
                self.record(calls);
                match find_task_complete(&parts) {
                    Some(info) => {
                        self.phase = PairPhase::Finished;
                        PairAction::Complete { step: self.step, info }
                    },
                    None => {
                        if self.step < self.max_steps {
                            self.step = self.step + 1;
                            self.phase = PairPhase::Worker;
                            PairAction::SendBackAndRunWorker { step: self.step }
                        } else {
                            self.phase = PairPhase::Finished;
                            PairAction::SendBackAndStop { steps: self.max_steps }
                        }
                    },
                }
            },
            _ => PairAction::Ignore,
        }
    }

    /// Append tool calls to the record.
    fn record(&mut self, calls: Vec<AgentToolCall>)
        ensures
            final(self).step == old(self).step,
            final(self).max_steps == old(self).max_steps,
            final(self).phase == old(self).phase,
            final(self).interrupted == old(self).interrupted,
            final(self).worker_name == old(self).worker_name,
            final(self).judge_name == old(self).judge_name,
            calls_view(final(self).tool_calls@) == calls_view(old(self).tool_calls@) + calls_view(calls@),
    {
        let mut calls = calls;
        let ghost start = calls_view(self.tool_calls@);
        let ghost all = calls_view(calls@);
        let mut i: usize = 0;
        while i < calls.len()
            invariant
                i <= calls@.len(),
                all == calls_view(calls@),
                calls_view(self.tool_calls@) == start + all.take(i as int),
                self.step == old(self).step,
                self.max_steps == old(self).max_steps,
                self.phase == old(self).phase,
                self.interrupted == old(self).interrupted,
                self.worker_name == old(self).worker_name,
                self.judge_name == old(self).judge_name,
            decreases calls@.len() - i,
        {
            let c = AgentToolCall {
                agent: owned(calls[i].agent.as_str()),
                tool: owned(calls[i].tool.as_str()),
                step: calls[i].step,
                duration_ms: calls[i].duration_ms,
                success: calls[i].success,
            };
            let ghost b = calls_view(self.tool_calls@);
            self.tool_calls.push(c);
            assert(calls_view(self.tool_calls@) =~= b.push(call_view(c)));
            assert(all.take(i as int + 1) =~= all.take(i as int).push(all[i as int]));
            i = i + 1;
        }
        assert(all.take(all.len() as int) =~= all);
    }
}

} // verus!
