//! The agent's reason-and-act loop: the conversation sent to the model,
//! the assembly of streamed tool calls, the reading of the event stream, and
//! the decisions taken between model replies and tool runs. Calling the
//! model and running the tools is outside work.
use vstd::prelude::*;
use crate::text::{
    chars_of, concat_str, dv, has_prefix, join, join_vecs, lit, owned, push_str, slice_to_vec, starts_with,
    str_eq, string_from_chars, sv, trim, trim_chars,
};
use crate::types::{Message, Part, ToolState};
use crate::store::MessageWithParts;
use crate::agent::{AgentInfo, check_tool_permission, tool_decision};

verus! {

/// A tool call of the model: its id, the tool's name and the arguments as
/// JSON text.
#[derive(Debug, Clone, PartialEq)]
pub struct LlmToolCall {
    pub id: String,
    pub name: String,
    pub arguments: String,
}

/// A message of the conversation sent to the model.
#[derive(Debug, Clone, PartialEq)]
pub enum LlmMessage {
    System { content: String },
    User { content: String },
    AssistantToolCalls { calls: Vec<LlmToolCall> },
    AssistantText { content: String },
    Tool { call_id: String, content: String },
}

/// The content of a model message.
pub enum LlmView {
    System(Seq<char>),
    User(Seq<char>),
    AssistantToolCalls(Seq<(Seq<char>, Seq<char>, Seq<char>)>),
    AssistantText(Seq<char>),
    Tool(Seq<char>, Seq<char>),
}

/// The content of a tool call.
pub open spec fn call_content(c: LlmToolCall) -> (Seq<char>, Seq<char>, Seq<char>) {
    (c.id@, c.name@, c.arguments@)
}

impl View for LlmMessage {
    type V = LlmView;

    open spec fn view(&self) -> LlmView {
        match self {
            LlmMessage::System { content } => LlmView::System(content@),
            LlmMessage::User { content } => LlmView::User(content@),
            LlmMessage::AssistantToolCalls { calls } => LlmView::AssistantToolCalls(
                calls@.map_values(|c: LlmToolCall| call_content(c)),
            ),
            LlmMessage::AssistantText { content } => LlmView::AssistantText(content@),
            LlmMessage::Tool { call_id, content } => LlmView::Tool(call_id@, content@),
        }
    }
}

/// The views of a conversation.
pub open spec fn lvs(v: Seq<LlmMessage>) -> Seq<LlmView> {
    v.map_values(|m: LlmMessage| m@)
}

/// The texts of the text parts, in order.
pub open spec fn text_of_parts(parts: Seq<Part>) -> Seq<Seq<char>>
    decreases parts.len(),
{
    if parts.len() == 0 {
        Seq::empty()
    } else {
        text_of_parts(parts.drop_last()) + match parts.last() {
            Part::Text { text, .. } => seq![text@],
            _ => Seq::empty(),
        }
    }
}

/// The tool parts: call id, tool name, state.
pub open spec fn tool_parts(parts: Seq<Part>) -> Seq<(Seq<char>, Seq<char>, ToolState)>
    decreases parts.len(),
{
    if parts.len() == 0 {
        Seq::empty()
    } else {
        tool_parts(parts.drop_last()) + match parts.last() {
            Part::Tool { call_id, tool, state, .. } => seq![(call_id@, tool@, state)],
            _ => Seq::empty(),
        }
    }
}

/// The arguments recorded in a tool state.
pub open spec fn state_input(s: ToolState) -> Seq<char> {
    match s {
        ToolState::Pending { input, .. } => input@,
        ToolState::Running { input, .. } => input@,
        ToolState::Completed { input, .. } => input@,
        ToolState::Error { input, .. } => input@,
    }
}

/// What the model is told a tool call gave.
pub open spec fn state_reply(s: ToolState) -> Seq<char> {
    match s {
        ToolState::Completed { output, .. } => output@,
        ToolState::Error { error, .. } => "Error: "@ + error@,
        _ => "Tool execution incomplete"@,
    }
}

/// The model messages for one stored message: a user message with its
/// text; an assistant message with tool calls as the calls followed by one
/// reply per call; an assistant message without tool calls as its text.
/// Messages without text give nothing.
pub open spec fn message_turns(m: MessageWithParts) -> Seq<LlmView> {
    let text = join(text_of_parts(m.parts@), "\n"@);
    match m.info {
        Message::User { .. } => if text.len() > 0 {
            seq![LlmView::User(text)]
        } else {
            Seq::empty()
        },
        Message::Assistant { .. } => {
            let tp = tool_parts(m.parts@);
            if tp.len() > 0 {
                seq![LlmView::AssistantToolCalls(tp.map_values(|t: (Seq<char>, Seq<char>, ToolState)| (t.0, t.1, state_input(t.2))))]
                    + tp.map_values(|t: (Seq<char>, Seq<char>, ToolState)| LlmView::Tool(t.0, state_reply(t.2)))
            } else if text.len() > 0 {
                seq![LlmView::AssistantText(text)]
            } else {
                Seq::empty()
            }
        },
    }
}

/// The model messages for a stored history, in order.
pub open spec fn history_turns(h: Seq<MessageWithParts>) -> Seq<LlmView>
    decreases h.len(),
{
    if h.len() == 0 {
        Seq::empty()
    } else {
        history_turns(h.drop_last()) + message_turns(h.last())
    }
}

/// The conversation sent to the model: the system prompts, the history,
/// and, when there is a reminder and the last message is the user's, the
/// reminder appended to it after a blank line.
pub open spec fn conversation(system: Seq<Seq<char>>, h: Seq<MessageWithParts>, reminder: Option<Seq<char>>) -> Seq<
    LlmView,
> {
    let base = system.map_values(|s: Seq<char>| LlmView::System(s)) + history_turns(h);
    match reminder {
        Some(r) => if base.len() > 0 && base.last() is User {
            base.update(base.len() - 1, LlmView::User(base.last()->User_0 + "\n\n"@ + r))
        } else {
            base
        },
        None => base,
    }
}

pub(crate) fn join_texts(parts: &Vec<Part>) -> (r: Vec<char>)
    ensures
        r@ == join(text_of_parts(parts@), "\n"@),
{
    let mut texts: Vec<Vec<char>> = Vec::new();
    let mut i: usize = 0;
    assert(parts@.take(0) =~= Seq::<Part>::empty());
    while i < parts.len()
        invariant
            i <= parts@.len(),
            dv(texts@) == text_of_parts(parts@.take(i as int)),
        decreases parts@.len() - i,
    {
        assert(parts@.take(i as int + 1).drop_last() =~= parts@.take(i as int));
        assert(parts@.take(i as int + 1).last() == parts@[i as int]);
        let ghost b = dv(texts@);
        match &parts[i] {
            Part::Text { text, .. } => {
                let t = chars_of(text.as_str());
                texts.push(t);
                assert(dv(texts@) =~= b + seq![text@]);
            },
            _ => {
                assert(dv(texts@) =~= b + Seq::<Seq<char>>::empty());
            },
        }
        i = i + 1;
    }
    assert(parts@.take(parts@.len() as int) =~= parts@);
    let nl = lit("\n");
    proof {
        reveal_strlit("\n");
    }
    join_vecs(&texts, &nl)
}

fn state_input_of(s: &ToolState) -> (r: String)
    ensures
        r@ == state_input(*s),
{
    match s {
        ToolState::Pending { input, .. } => owned(input.as_str()),
        ToolState::Running { input, .. } => owned(input.as_str()),
        ToolState::Completed { input, .. } => owned(input.as_str()),
        ToolState::Error { input, .. } => owned(input.as_str()),
    }
}

fn state_reply_of(s: &ToolState) -> (r: String)
    ensures
        r@ == state_reply(*s),
{
    proof {
        reveal_strlit("Error: ");
        reveal_strlit("Tool execution incomplete");
    }
    match s {
        ToolState::Completed { output, .. } => owned(output.as_str()),
        ToolState::Error { error, .. } => concat_str("Error: ", error.as_str()),
        _ => owned("Tool execution incomplete"),
    }
}

/// Append the model messages for one stored message (see
/// [`message_turns`]).
fn push_message_turns(out: &mut Vec<LlmMessage>, m: &MessageWithParts)
    ensures
        lvs(final(out)@) == lvs(old(out)@) + message_turns(*m),
{
    let text = join_texts(&m.parts);
    let ghost start = lvs(out@);
    let ghost tp = tool_parts(m.parts@);
    match &m.info {
        Message::User { .. } => {
            if text.len() > 0 {
                out.push(LlmMessage::User { content: string_from_chars(&text) });
                assert(lvs(out@) =~= start + message_turns(*m));
            } else {
                assert(lvs(out@) =~= start + message_turns(*m));
            }
        },
        Message::Assistant { .. } => {
            let mut calls: Vec<LlmToolCall> = Vec::new();
            let mut replies: Vec<LlmMessage> = Vec::new();
            let mut i: usize = 0;
            let ghost f1 = |t: (Seq<char>, Seq<char>, ToolState)| (t.0, t.1, state_input(t.2));
            let ghost f2 = |t: (Seq<char>, Seq<char>, ToolState)| LlmView::Tool(t.0, state_reply(t.2));
            assert(m.parts@.take(0) =~= Seq::<Part>::empty());
            while i < m.parts.len()
                invariant
                    i <= m.parts@.len(),
                    calls@.map_values(|c: LlmToolCall| call_content(c)) =~= tool_parts(m.parts@.take(i as int)).map_values(f1),
                    lvs(replies@) =~= tool_parts(m.parts@.take(i as int)).map_values(f2),
                    f1 == (|t: (Seq<char>, Seq<char>, ToolState)| (t.0, t.1, state_input(t.2))),
                    f2 == (|t: (Seq<char>, Seq<char>, ToolState)| LlmView::Tool(t.0, state_reply(t.2))),
                decreases m.parts@.len() - i,
            {
                assert(m.parts@.take(i as int + 1).drop_last() =~= m.parts@.take(i as int));
                assert(m.parts@.take(i as int + 1).last() == m.parts@[i as int]);
                let ghost tb = tool_parts(m.parts@.take(i as int));
                match &m.parts[i] {
                    Part::Tool { call_id, tool, state, .. } => {
                        let c = LlmToolCall {
                            id: owned(call_id.as_str()),
                            name: owned(tool.as_str()),
                            arguments: state_input_of(state),
                        };
                        let ghost cb = calls@;
                        let ghost cc = call_content(c);
                        assert(cc == f1((call_id@, tool@, *state)));
                        calls.push(c);
                        assert(calls@.map_values(|c: LlmToolCall| call_content(c)) =~= cb.map_values(|c: LlmToolCall| call_content(c)).push(cc));
                        let ghost rb = replies@;
                        let rep = LlmMessage::Tool { call_id: owned(call_id.as_str()), content: state_reply_of(state) };
                        assert(rep@ == f2((call_id@, tool@, *state)));
                        replies.push(rep);
                        assert(lvs(replies@) =~= lvs(rb).push(f2((call_id@, tool@, *state))));
                        let ghost tn = tool_parts(m.parts@.take(i as int + 1));
                        assert(tn =~= tb.push((call_id@, tool@, *state)));
                        assert(tn.map_values(f1) =~= tb.map_values(f1).push(f1((call_id@, tool@, *state))));
                        assert(tn.map_values(f2) =~= tb.map_values(f2).push(f2((call_id@, tool@, *state))));
                        assert(calls@.map_values(|c: LlmToolCall| call_content(c)) =~= tn.map_values(f1));
                        assert(lvs(replies@) =~= tn.map_values(f2));
                    },
                    _ => {
                        assert(tool_parts(m.parts@.take(i as int + 1)) =~= tb);
                    },
                }
                i = i + 1;
            }
            assert(m.parts@.take(m.parts@.len() as int) =~= m.parts@);
            if calls.len() > 0 {
                let ghost cv = calls@.map_values(|c: LlmToolCall| call_content(c));
                out.push(LlmMessage::AssistantToolCalls { calls });
                let ghost mid = lvs(out@);
                assert(mid =~= start + seq![LlmView::AssistantToolCalls(cv)]);
                let mut k: usize = 0;
                let n = replies.len();
                let mut rs = replies;
                let ghost all = lvs(rs@);
                while rs.len() > 0
                    invariant
                        k + rs@.len() == n,
                        lvs(rs@) =~= all.skip(k as int),
                        lvs(out@) =~= mid + all.take(k as int),
                        all.len() == n,
                    decreases rs@.len(),
                {
                    let ghost rb = rs@;
                    let r = rs.remove(0);
                    assert(rs@ =~= rb.subrange(1, rb.len() as int));
                    assert(r == rb[0]);
                    assert(lvs(rb)[0] == all.skip(k as int)[0]);
                    assert(r@ == all[k as int]);
                    let ghost ob = lvs(out@);
                    out.push(r);
                    assert(lvs(out@) =~= ob.push(all[k as int]));
                    assert(all.take(k + 1) =~= all.take(k as int).push(all[k as int]));
                    assert forall|q: int| 0 <= q < rs@.len() implies lvs(rs@)[q] == all.skip(k + 1)[q] by {
                        assert(rs@[q] == rb[q + 1]);
                        assert(lvs(rb)[q + 1] == all.skip(k as int)[q + 1]);
                    }
                    assert(lvs(rs@) =~= all.skip(k + 1));
                    k = k + 1;
                }
                assert(all.take(n as int) =~= all);
                assert(lvs(out@) =~= start + message_turns(*m));
            } else if text.len() > 0 {
                out.push(LlmMessage::AssistantText { content: string_from_chars(&text) });
                assert(lvs(out@) =~= start + message_turns(*m));
            } else {
                assert(lvs(out@) =~= start + message_turns(*m));
            }
        },
    }
}

/// The conversation sent to the model (see [`conversation`]).
pub fn build_context(system_prompts: &Vec<String>, history: &Vec<MessageWithParts>, reminder: Option<&str>) -> (r: Vec<
    LlmMessage,
>)
    ensures
        lvs(r@) == conversation(sv(system_prompts@), history@, match reminder {
            Some(x) => Some(x@),
            None => None,
        }),
{
    let mut out: Vec<LlmMessage> = Vec::new();
    let mut i: usize = 0;
    let ghost sys = sv(system_prompts@).map_values(|s: Seq<char>| LlmView::System(s));
    while i < system_prompts.len()
        invariant
            i <= system_prompts@.len(),
            sys == sv(system_prompts@).map_values(|s: Seq<char>| LlmView::System(s)),
            lvs(out@) =~= sys.take(i as int),
        decreases system_prompts@.len() - i,
    {
        let ghost b = lvs(out@);
        let m = LlmMessage::System { content: owned(system_prompts[i].as_str()) };
        out.push(m);
        assert(lvs(out@) =~= b.push(m@));
        assert(sys.take(i as int + 1) =~= sys.take(i as int).push(sys[i as int]));
        i = i + 1;
    }
    assert(sys.take(system_prompts@.len() as int) =~= sys);
    let mut j: usize = 0;
    assert(history@.take(0) =~= Seq::<MessageWithParts>::empty());
    while j < history.len()
        invariant
            j <= history@.len(),
            lvs(out@) =~= sys + history_turns(history@.take(j as int)),
        decreases history@.len() - j,
    {
        assert(history@.take(j as int + 1).drop_last() =~= history@.take(j as int));
        assert(history@.take(j as int + 1).last() == history@[j as int]);
        push_message_turns(&mut out, &history[j]);
        j = j + 1;
    }
    assert(history@.take(history@.len() as int) =~= history@);
    match reminder {
        Some(rem) => {
            let n = out.len();
            if n > 0 {
                let last_user: Option<String> = match &out[n - 1] {
                    LlmMessage::User { content } => {
                        proof {
                            reveal_strlit("\n\n");
                        }
                        let a = concat_str(content.as_str(), "\n\n");
                        Some(concat_str(a.as_str(), rem))
                    },
                    _ => None,
                };
                match last_user {
                    Some(c) => {
                        let ghost b = lvs(out@);
                        out.set(n - 1, LlmMessage::User { content: c });
                        assert(lvs(out@) =~= b.update(n - 1, LlmView::User(c@)));
                    },
                    None => {},
                }
            }
        },
        None => {},
    }
    out
}

/// A tool call being assembled from streamed pieces: index, id, name and
/// the arguments received so far.
pub type CallEntry = (usize, Seq<char>, Seq<char>, Seq<char>);

/// The position of the entry for `index`, or `-1`.
pub open spec fn entry_index(s: Seq<CallEntry>, index: usize) -> int
    decreases s.len(),
{
    if s.len() == 0 {
        -1
    } else if s.last().0 == index {
        s.len() - 1
    } else {
        entry_index(s.drop_last(), index)
    }
}

pub proof fn lemma_entry_index(s: Seq<CallEntry>, index: usize)
    ensures
        -1 <= entry_index(s, index) < s.len(),
        entry_index(s, index) >= 0 ==> s[entry_index(s, index)].0 == index,
        entry_index(s, index) == -1 ==> forall|j: int| 0 <= j < s.len() ==> s[j].0 != index,
        forall|j: int| entry_index(s, index) < j < s.len() ==> s[j].0 != index,
    decreases s.len(),
{
    if s.len() > 0 {
        lemma_entry_index(s.drop_last(), index);
        assert forall|j: int| 0 <= j < s.len() - 1 implies s.drop_last()[j] == s[j] by {}
    }
}

proof fn lemma_entry_last_match(s: Seq<CallEntry>, index: usize, i: int)
    requires
        0 <= i < s.len(),
        s[i].0 == index,
        forall|j: int| i < j < s.len() ==> s[j].0 != index,
    ensures
        entry_index(s, index) == i,
    decreases s.len(),
{
    if i < s.len() - 1 {
        lemma_entry_last_match(s.drop_last(), index, i);
    }
}

/// The calls after one streamed piece: a new index starts an entry (with
/// empty id and name when they are not given); a known index has its id
/// and name replaced when given and its arguments extended.
pub open spec fn apply_piece(
    s: Seq<CallEntry>,
    index: usize,
    id: Option<Seq<char>>,
    name: Option<Seq<char>>,
    args: Seq<char>,
) -> Seq<CallEntry> {
    let k = entry_index(s, index);
    if k < 0 {
        s.push((
            index,
            match id {
                Some(x) => x,
                None => Seq::empty(),
            },
            match name {
                Some(x) => x,
                None => Seq::empty(),
            },
            args,
        ))
    } else {
        s.update(
            k,
            (
                index,
                match id {
                    Some(x) => x,
                    None => s[k].1,
                },
                match name {
                    Some(x) => x,
                    None => s[k].2,
                },
                s[k].3 + args,
            ),
        )
    }
}

/// Tool calls assembled from the pieces of a streamed reply, in the order
/// their indices first appeared.
pub struct ToolCallAccumulator {
    entries: Vec<(usize, String, String, String)>,
}

impl View for ToolCallAccumulator {
    type V = Seq<CallEntry>;

    closed spec fn view(&self) -> Seq<CallEntry> {
        self.entries@.map_values(|e: (usize, String, String, String)| (e.0, e.1@, e.2@, e.3@))
    }
}

impl ToolCallAccumulator {
    /// No calls yet.
    pub fn new() -> (r: ToolCallAccumulator)
        ensures
            r@ == Seq::<CallEntry>::empty(),
    {
        let r = ToolCallAccumulator { entries: Vec::new() };
        assert(r@ =~= Seq::<CallEntry>::empty());
        r
    }

    /// Take one streamed piece of a tool call (see [`apply_piece`]).
    pub fn add_piece(&mut self, index: usize, id: Option<String>, name: Option<String>, arguments: &str)
        ensures
            final(self)@ == apply_piece(old(self)@, index, match id {
                Some(x) => Some(x@),
                None => None,
            }, match name {
                Some(x) => Some(x@),
                None => None,
            }, arguments@),
    {
        let ghost s = self@;
        proof {
            lemma_entry_index(s, index);
        }
        let mut k: usize = self.entries.len();
        while k > 0 && self.entries[k - 1].0 != index
            invariant
                k <= self.entries@.len(),
                s == self@,
                forall|j: int| k <= j < s.len() ==> s[j].0 != index,
            decreases k,
        {
            k = k - 1;
        }
        if k == 0 {
            proof {
                assert(forall|j: int| 0 <= j < s.len() ==> s[j].0 != index);
                if entry_index(s, index) >= 0 {
                    assert(s[entry_index(s, index)].0 == index);
                }
            }
            let e = (
                index,
                match id {
                    Some(x) => x,
                    None => String::new(),
                },
                match name {
                    Some(x) => x,
                    None => String::new(),
                },
                owned(arguments),
            );
            self.entries.push(e);
            assert(self@ =~= apply_piece(s, index, match id {
                Some(x) => Some(x@),
                None => None,
            }, match name {
                Some(x) => Some(x@),
                None => None,
            }, arguments@));
        } else {
            let i = k - 1;
            proof {
                assert(s[i as int].0 == index);
                lemma_entry_last_match(s, index, i as int);
            }
            let mut e = (0usize, String::new(), String::new(), String::new());
            std::mem::swap(&mut e, &mut self.entries[i]);
            let ghost before = e;
            match id {
                Some(x) => {
                    e.1 = x;
                },
                None => {},
            }
            match name {
                Some(x) => {
                    e.2 = x;
                },
                None => {},
            }
            let joined = concat_str(e.3.as_str(), arguments);
            e.3 = joined;
            self.entries.set(i, e);
            assert(self@ =~= apply_piece(s, index, match id {
                Some(x) => Some(x@),
                None => None,
            }, match name {
                Some(x) => Some(x@),
                None => None,
            }, arguments@));
        }
    }

    /// No call was assembled.
    pub fn is_empty(&self) -> (r: bool)
        ensures
            r == (self@.len() == 0),
    {
        self.entries.len() == 0
    }

    /// The assembled calls, in order.
    pub fn calls(&self) -> (r: Vec<LlmToolCall>)
        ensures
            r@.len() == self@.len(),
            forall|j: int| 0 <= j < r@.len() ==> call_content(#[trigger] r@[j]) == (self@[j].1, self@[j].2, self@[j].3),
    {
        let mut out: Vec<LlmToolCall> = Vec::new();
        let mut i: usize = 0;
        while i < self.entries.len()
            invariant
                i <= self.entries@.len(),
                out@.len() == i,
                forall|j: int| 0 <= j < i ==> call_content(#[trigger] out@[j]) == (self@[j].1, self@[j].2, self@[j].3),
            decreases self.entries@.len() - i,
        {
            let e = &self.entries[i];
            out.push(LlmToolCall { id: owned(e.1.as_str()), name: owned(e.2.as_str()), arguments: owned(e.3.as_str()) });
            i = i + 1;
        }
        out
    }
}

/// What a line of the model's event stream carries.
#[derive(Debug, Clone, PartialEq)]
pub enum SseLine {
    /// Nothing to act on (blank, a comment, or not a data line).
    Skip,
    /// A data payload (a JSON chunk).
    Data(String),
    /// The end-of-stream marker.
    Done,
}

/// The meaning of a stream line, trimmed: blank lines and comments (a
/// leading `:`) are skipped; `data: [DONE]` ends the stream; other `data: `
/// lines carry their payload; anything else is skipped.
pub open spec fn sse_line(l: Seq<char>) -> Option<Option<Seq<char>>> {
    let t = trim(l);
    if t.len() == 0 || starts_with(t, ":"@) {
        None
    } else if starts_with(t, "data: "@) {
        if t.skip(6) == "[DONE]"@ {
            Some(None)
        } else {
            Some(Some(t.skip(6)))
        }
    } else {
        None
    }
}

/// Classify a line of the event stream (see [`sse_line`]).
pub fn classify_sse_line(line: &str) -> (r: SseLine)
    ensures
        match sse_line(line@) {
            None => r == SseLine::Skip,
            Some(None) => r == SseLine::Done,
            Some(Some(d)) => r matches SseLine::Data(x) && x@ == d,
        },
{
    proof {
        reveal_strlit(":");
        reveal_strlit("data: ");
        reveal_strlit("[DONE]");
    }
    let c = chars_of(line);
    let t = trim_chars(&c);
    let colon = lit(":");
    let data = lit("data: ");
    if t.len() == 0 || has_prefix(&t, &colon) {
        return SseLine::Skip;
    }
    if has_prefix(&t, &data) {
        let d = slice_to_vec(&t, 6, t.len());
        assert(d@ =~= t@.skip(6));
        let done = lit("[DONE]");
        if crate::text::chars_eq(&d, &done) {
            SseLine::Done
        } else {
            SseLine::Data(string_from_chars(&d))
        }
    } else {
        SseLine::Skip
    }
}

/// Text received from the stream, cut into lines as they complete.
pub struct SseBuffer {
    buf: Vec<char>,
}

impl View for SseBuffer {
    type V = Seq<char>;

    closed spec fn view(&self) -> Seq<char> {
        self.buf@
    }
}

impl SseBuffer {
    /// An empty buffer.
    pub fn new() -> (r: SseBuffer)
        ensures
            r@ == Seq::<char>::empty(),
    {
        SseBuffer { buf: Vec::new() }
    }

    /// Append received text.
    pub fn push_text(&mut self, text: &str)
        ensures
            final(self)@ == old(self)@ + text@,
    {
        push_str(&mut self.buf, text);
    }

    /// Take the next complete line (without its newline), if there is one.
    pub fn next_line(&mut self) -> (r: Option<String>)
        ensures
            match r {
                Some(l) => exists|k: int|
                    0 <= k < old(self)@.len() && old(self)@[k] == '\n' && (forall|j: int| 0 <= j < k ==> old(self)@[j] != '\n')
                        && l@ == old(self)@.take(k) && final(self)@ == old(self)@.skip(k + 1),
                None => (forall|j: int| 0 <= j < old(self)@.len() ==> old(self)@[j] != '\n') && final(self)@ == old(self)@,
            },
    {
        let ghost ob = self@;
        let mut k: usize = 0;
        while k < self.buf.len() && self.buf[k] != '\n'
            invariant
                k <= self.buf@.len(),
                forall|j: int| 0 <= j < k ==> self.buf@[j] != '\n',
            decreases self.buf@.len() - k,
        {
            k = k + 1;
        }
        if k == self.buf.len() {
            return None;
        }
        let line = slice_to_vec(&self.buf, 0, k);
        let rest = slice_to_vec(&self.buf, k + 1, self.buf.len());
        assert(line@ =~= self.buf@.take(k as int));
        assert(rest@ =~= self.buf@.skip(k + 1));
        self.buf = rest;
        let r = string_from_chars(&line);
        assert(0 <= k < ob.len() && ob[k as int] == '\n' && (forall|j: int| 0 <= j < k ==> ob[j] != '\n')
            && r@ == ob.take(k as int) && self@ == ob.skip(k + 1));
        Some(r)
    }
}

/// What to do at the start of an iteration of the loop.
#[derive(Debug, Clone, Copy, PartialEq, Eq, Structural)]
pub enum TurnStep {
    /// The session was aborted: stop with an error.
    Abort,
    /// Ask the model.
    CallModel,
    /// The iterations are used up: finish the turn.
    Finish,
}

/// At most this many model calls are made in one turn.
pub const MAX_ITERATIONS: u32 = 10;

/// The step at the start of iteration `iteration` (from 0).
pub fn turn_step(iteration: u32, aborted: bool) -> (r: TurnStep)
    ensures
        iteration >= 10 ==> r == TurnStep::Finish,
        iteration < 10 && aborted ==> r == TurnStep::Abort,
        iteration < 10 && !aborted ==> r == TurnStep::CallModel,
{
    if iteration >= MAX_ITERATIONS {
        TurnStep::Finish
    } else if aborted {
        TurnStep::Abort
    } else {
        TurnStep::CallModel
    }
}

/// What is done with one tool call the model asked for.
#[derive(Debug, Clone, PartialEq)]
pub enum CallPlan {
    /// Run the tool.
    Run,
    /// Refused: `note` is shown in the turn, `reply` is what the model is
    /// told.
    Denied { note: String, reply: String },
}

/// The note shown for a refused call.
pub open spec fn denial_note(tool: Seq<char>, reason: Seq<char>) -> Seq<char> {
    "\u{274c} Tool '"@ + tool + "' denied: "@ + reason
}

/// What is done with a call of `tool` by `agent`; `command` is the call's
/// `command` argument when it has one as a string.
pub fn plan_call(agent: &AgentInfo, tool: &str, command: Option<&str>) -> (r: CallPlan)
    ensures
        match tool_decision(agent@, tool@, match command {
            Some(c) => Some(c@),
            None => None,
        }) {
            Ok(()) => r == CallPlan::Run,
            Err(e) => r matches CallPlan::Denied { note, reply } && note@ == denial_note(tool@, e) && reply@
                == "Error: "@ + e,
        },
{
    match check_tool_permission(agent, tool, command) {
        Ok(()) => CallPlan::Run,
        Err(e) => {
            proof {
                reveal_strlit("\u{274c} Tool '");
                reveal_strlit("' denied: ");
                reveal_strlit("Error: ");
            }
            let a = concat_str("\u{274c} Tool '", tool);
            let b = concat_str(a.as_str(), "' denied: ");
            let note = concat_str(b.as_str(), e.as_str());
            let reply = concat_str("Error: ", e.as_str());
            CallPlan::Denied { note, reply }
        },
    }
}

/// Whether a tool changes files (a patch of the changes is then recorded).
pub fn is_file_modifying(tool: &str) -> (r: bool)
    ensures
        r == (tool@ == "edit"@ || tool@ == "write"@ || tool@ == "bash"@),
{
    str_eq(tool, "edit") || str_eq(tool, "write") || str_eq(tool, "bash")
}

/// The arguments of a streamed tool call are its pieces in order: a call
/// started with `first` and continued with `second` carries `first + second`,
/// with the id and name it started with.
pub proof fn law_pieces_concatenate(
    s: Seq<CallEntry>,
    index: usize,
    id: Seq<char>,
    name: Seq<char>,
    first: Seq<char>,
    second: Seq<char>,
)
    requires
        entry_index(s, index) == -1,
    ensures
        ({
            let t = apply_piece(apply_piece(s, index, Some(id), Some(name), first), index, None, None, second);
            &&& t.len() == s.len() + 1
            &&& t.last() == (index, id, name, first + second)
        }),
{
    let t1 = apply_piece(s, index, Some(id), Some(name), first);
    assert(t1.last().0 == index);
    assert(entry_index(t1, index) == s.len());
}

} // verus!
