//! The task tool: launching a subagent, or a verified pair, for a task.
//! Which agent runs and what the caller is told is decided here; running
//! the agents is outside work.
use vstd::prelude::*;
use crate::text::{
    chars_of, concat_str, decimal, decimal_of, dv, join, join_vecs, lit, owned, push_all, push_str, replace_first,
    replace_first_in, str_eq, string_from_chars, sv,
};
use crate::agent::{AgentInfo, AgentMode, AgentRegistry, AgentView, agent_get, avs, is_subagent_mode, subagents};
use crate::types::{AgentToolCall, Part, Session, SessionView, os};
use crate::store::{SessionStore, StoreView, messages_of, new_session, now_millis, random_uuid, clock_error, touched};
use crate::session::{sess_put, lemma_put_twice, law_get_after_put};
use crate::pair::{user_message_at, user_message_view};
use crate::react::{join_texts, text_of_parts};
use crate::tools::{failed, MetaValue, MetaView, ReportView, ToolReport, ToolStatus};

verus! {

/// The tool that launches subagents.
pub struct TaskTool {
    description: String,
}

/// The description template; `{agents}` stands for the list of agents.
pub const TASK_DESCRIPTION: &'static str = "Launch a new agent to handle complex, multi-step tasks autonomously.\n\nAvailable agent types and the tools they have access to:\n{agents}\n\nWhen using the Task tool, you must specify a subagent_type parameter to select which agent type to use.\n\nWhen NOT to use the Task tool:\n- If you want to read a specific file path, use the Read or Glob tool instead of the Task tool, to find the match more quickly\n- If you are searching for a specific class definition like \"class Foo\", use the Glob tool instead, to find the match more quickly\n- If you are searching for code within a specific file or set of 2-3 files, use the Read tool instead of the Task tool, to find the match more quickly\n- Other tasks that are not related to the agent descriptions above\n\nUsage notes:\n- Launch multiple agents concurrently whenever possible, to maximize performance; to do that, use a single message with multiple tool uses\n- When the agent is done, it will return a single message back to you. The result returned by the agent is not visible to the user. To show the user the result, you should send a text message back to the user with a concise summary of the result.\n- Each agent invocation is stateless. You will not be able to send additional messages to the agent, nor will the agent be able to communicate with you outside of its final report. Therefore, your prompt should contain a highly detailed task description for the agent to perform autonomously and you should specify exactly what information the agent should return back to you in its final and only message to you.\n- Agents with \"access to current context\" can see the full conversation history before the tool call. When using these agents, you can write concise prompts that reference earlier context (e.g., \"investigate the error discussed above\") instead of repeating information. The agent will receive all prior messages and understand the context.\n- The agent's outputs should generally be trusted\n- Clearly tell the agent whether you expect it to write code or just to do research (search, file reads, web fetches, etc.), since it is not aware of the user's intent\n- If the agent description mentions that it should be used proactively, then you should try your best to use it without the user having to ask for it first. Use your judgement.\n- If the user specifies that they want you to run agents \"in parallel\", you MUST send a single message with multiple Task tool use content blocks. For example, if you need to launch both a code-critic agent and a test-runner agent in parallel, send a single message with both tool calls.\n\nExample usage:\n\n<example_agent_descriptions>\n\"code-critic\": use this agent after you are done writing a signficant piece of code\n\"greeting-responder\": use this agent when to respond to user greetings with a friendly joke\n</example_agent_description>\n\n<example>\nuser: \"Please write a function that checks if a number is prime\"\nassistant: Sure let me write a function that checks if a number is prime\nassistant: First let me use the Write tool to write a function that checks if a number is prime\nassistant: I'm going to use the Write tool to write the following code:\n<code>\nfunction isPrime(n) {\n  if (n <= 1) return false\n  for (let i = 2; i * i <= n; i++) {\n    if (n % i === 0) return false\n  }\n  return true\n}\n</code>\n<commentary>\nSince a signficant piece of code was written and the task was completed, now use the code-critic agent to review the code\n</commentary>\nassistant: Now let me use the code-critic agent to review the code\nassistant: Uses the Task tool to launch the code-critic agent\n</example>\n\n<example>\nuser: \"Hello\"\n<commentary>\nSince the user is greeting, use the greeting-responder agent to respond with a friendly joke\n</commentary>\nassistant: \"I'm going to use the Task tool to launch the greeting-responder agent\"\n</example>\n";

/// The line describing a subagent.
pub open spec fn agent_line(a: AgentView) -> Seq<char> {
    "- "@ + a.name + ": "@ + match a.description {
        Some(d) => d,
        None => "This subagent should only be called manually by the user."@,
    }
}

/// The line describing verified execution.
pub open spec fn verified_line() -> Seq<char> {
    "- verified: Agent for tasks requiring verified completion with automatic testing and validation before marking done."@
}

/// The tool's description for the subagents `agents`: the template with
/// its placeholder replaced by one line per subagent and the line for
/// verified execution.
pub open spec fn task_description(agents: Seq<AgentView>) -> Seq<char> {
    replace_first(
        TASK_DESCRIPTION@,
        "{agents}"@,
        join(agents.map_values(|a: AgentView| agent_line(a)).push(verified_line()), "\n"@),
    )
}

/// How an agent mode is named in messages.
pub open spec fn mode_name(m: AgentMode) -> Seq<char> {
    match m {
        AgentMode::Primary => "Primary"@,
        AgentMode::Subagent => "Subagent"@,
        AgentMode::All => "All"@,
    }
}

/// Where a task goes.
#[derive(Debug, Clone, PartialEq)]
pub enum TaskRoute {
    /// A verified pair (executor and arbiter).
    Verified,
    /// The named subagent.
    Agent(AgentInfo),
}

/// The error for an unknown agent type.
pub open spec fn unknown_agent_message(t: Seq<char>, available: Seq<AgentView>) -> Seq<char> {
    "Unknown agent type: '"@ + t + "'. Available subagents: "@ + join(available.map_values(|a: AgentView| a.name), ", "@)
}

/// The error for an agent that cannot run as a subagent.
pub open spec fn not_subagent_message(t: Seq<char>, mode: AgentMode) -> Seq<char> {
    "Agent '"@ + t + "' cannot be used as a subagent (mode: "@ + mode_name(mode) + ")"@
}

/// The report of a verified pair's run.
pub open spec fn call_line(c: AgentToolCall) -> Seq<char> {
    "- "@ + (if c.success { "\u{2713}"@ } else { "\u{2717}"@ }) + " "@ + c.agent@ + "/"@ + decimal(c.step as nat) + ": "@
        + c.tool@ + " ("@ + decimal(c.duration_ms as nat) + "ms)\n"@
}

/// The lines for the tool calls of a run.
pub open spec fn call_lines(v: Seq<AgentToolCall>) -> Seq<char>
    decreases v.len(),
{
    if v.len() == 0 {
        Seq::empty()
    } else {
        call_lines(v.drop_last()) + call_line(v.last())
    }
}

/// What the caller is told of a verified pair's run.
pub open spec fn pair_report(
    completed: bool,
    steps: u32,
    summary: Option<Seq<char>>,
    verification: Option<Seq<char>>,
    calls: Seq<AgentToolCall>,
) -> Seq<char> {
    (if completed {
        "\u{2705} Task completed and verified in "@ + decimal(steps as nat) + " step(s).\n\n"@ + match summary {
            Some(s) => "**Summary:** "@ + s + "\n\n"@,
            None => Seq::empty(),
        } + match verification {
            Some(v) => "**Verification:** "@ + v + "\n"@,
            None => Seq::empty(),
        }
    } else {
        "\u{26a0}\u{fe0f} Task incomplete after "@ + decimal(steps as nat) + " step(s) (max steps reached).\n\n"@
            + "The arbiter did not call task_complete. Review the executor and arbiter sessions for details."@
    }) + if calls.len() > 0 {
        "\n**Tool calls:**\n"@ + call_lines(calls)
    } else {
        Seq::empty()
    }
}

fn push_call_line(out: &mut Vec<char>, c: &AgentToolCall)
    ensures
        final(out)@ == old(out)@ + call_line(*c),
{
    proof {
        reveal_strlit("- ");
        reveal_strlit("\u{2713}");
        reveal_strlit("\u{2717}");
        reveal_strlit(" ");
        reveal_strlit("/");
        reveal_strlit(": ");
        reveal_strlit(" (");
        reveal_strlit("ms)\n");
    }
    let ghost start = out@;
    push_str(out, "- ");
    if c.success {
        push_str(out, "\u{2713}");
    } else {
        push_str(out, "\u{2717}");
    }
    push_str(out, " ");
    push_str(out, c.agent.as_str());
    push_str(out, "/");
    let s = decimal_of(c.step as u128);
    push_all(out, &s);
    push_str(out, ": ");
    push_str(out, c.tool.as_str());
    push_str(out, " (");
    let ms = decimal_of(c.duration_ms as u128);
    push_all(out, &ms);
    push_str(out, "ms)\n");
    assert(out@ =~= start + call_line(*c));
}

/// How a task was started.
pub enum TaskStart {
    /// The task goes to a verified pair; nothing was created yet.
    Verified,
    /// A child session was created for the subagent `agent`.
    Agent { session: Session, agent: AgentInfo },
}

/// The error with which a task for `t` is refused before anything runs:
/// an unknown agent, or one that cannot run as a subagent. `None` for
/// `verified` and for subagents.
pub open spec fn task_refusal(agents: Seq<AgentView>, t: Seq<char>) -> Option<Seq<char>> {
    if t == "verified"@ {
        None
    } else {
        match agent_get(agents, t) {
            None => Some(unknown_agent_message(t, subagents(agents))),
            Some(a) => if is_subagent_mode(a.mode) {
                None
            } else {
                Some(not_subagent_message(t, a.mode))
            },
        }
    }
}

/// The report of a refused tool call: failed with `e`, no output, no
/// metadata.
pub open spec fn refusal_report(e: Seq<char>) -> ReportView {
    ReportView { status: ToolStatus::Error, output: Seq::empty(), error: Some(e), metadata: Seq::empty() }
}

/// The store went from `before` to `after` by starting a subagent in
/// session `s`: a child of `parent_id` in `directory` of `project_id`,
/// titled `Subagent: ` and the description, created at its creation
/// time, whose messages gained one user message holding `prompt`; no other
/// session or message list changed.
pub open spec fn subagent_started(
    before: StoreView,
    after: StoreView,
    s: SessionView,
    project_id: Seq<char>,
    directory: Seq<char>,
    parent_id: Seq<char>,
    description: Seq<char>,
    prompt: Seq<char>,
) -> bool {
    &&& s == new_session(s.id, project_id, directory, Some(parent_id), "Subagent: "@ + description, s.time.created)
    &&& after.sessions == sess_put(before.sessions, s)
    &&& after.messages.dom().contains(s.id)
    &&& after.messages == before.messages.insert(s.id, after.messages[s.id])
    &&& after.messages[s.id].len() == messages_of(before.messages, s.id).len() + 1
    &&& after.messages[s.id].drop_last() == messages_of(before.messages, s.id)
    &&& user_message_view(after.messages[s.id].last(), s.id, prompt, s.time.created)
}

/// Start a task for `subagent_type`: refuse it (see [`task_refusal`]),
/// hand it to a verified pair, or create the subagent's child session
/// `child_id` of `parent_id` at `now` and store the task's prompt in it as
/// the first user message (ids `message_id`, `part_id`).
pub fn start_subagent(
    store: &mut SessionStore,
    registry: &AgentRegistry,
    parent_id: &str,
    project_id: &str,
    directory: &str,
    description: &str,
    prompt: &str,
    subagent_type: &str,
    child_id: String,
    message_id: String,
    part_id: String,
    now: u64,
) -> (r: Result<TaskStart, ToolReport>)
    ensures
        match task_refusal(registry@, subagent_type@) {
            Some(e) => r matches Err(rep) && rep@ == refusal_report(e) && final(store)@ == old(store)@,
            None => if subagent_type@ == "verified"@ {
                r matches Ok(TaskStart::Verified) && final(store)@ == old(store)@
            } else {
                &&& r matches Ok(TaskStart::Agent { session, agent }) && agent_get(registry@, subagent_type@)
                    == Some(agent@) && session@.id == child_id@ && session@.time.created == now
                    && subagent_started(
                    old(store)@,
                    final(store)@,
                    session@,
                    project_id@,
                    directory@,
                    parent_id@,
                    description@,
                    prompt@,
                ) && crate::types::message_id(final(store)@.messages[child_id@].last().info)@ == message_id@
                    && crate::types::part_id(final(store)@.messages[child_id@].last().parts@[0])@ == part_id@
            },
        },
{
    match TaskTool::route(registry, subagent_type) {
        Err(e) => Err(failed(e)),
        Ok(TaskRoute::Verified) => Ok(TaskStart::Verified),
        Ok(TaskRoute::Agent(agent)) => {
            let ghost before = store@;
            let title = TaskTool::child_title(description);
            let session = store.create_at(child_id, owned(project_id), owned(directory), Some(owned(parent_id)), title, now);
            let ghost ns = session@;
            let ghost mid = store@;
            let msg = user_message_at(session.id.as_str(), prompt, message_id, part_id, now);
            let ghost gm = msg;
            proof {
                law_get_after_put(before.sessions, ns);
            }
            let _ = store.add_message_at(session.id.as_str(), msg, now);
            proof {
                assert(touched(ns, None, now) == ns);
                lemma_put_twice(before.sessions, ns);
                assert(messages_of(mid.messages, ns.id) == messages_of(before.messages, ns.id));
                assert(store@.messages[ns.id] == messages_of(before.messages, ns.id).push(gm));
                assert(store@.messages[ns.id].drop_last() =~= messages_of(before.messages, ns.id));
                assert(store@.messages =~= before.messages.insert(ns.id, store@.messages[ns.id]));
            }
            Ok(TaskStart::Agent { session, agent })
        },
    }
}

/// Start a task with fresh ids (`ses-`, `msg-` and `part-` followed by a
/// random UUID) at the current time (see [`start_subagent`]). When the
/// clock cannot be read no child session is created and the error says
/// so; refusals and verified pairs are as in [`start_subagent`].
pub fn begin_subagent(
    store: &mut SessionStore,
    registry: &AgentRegistry,
    parent_id: &str,
    project_id: &str,
    directory: &str,
    description: &str,
    prompt: &str,
    subagent_type: &str,
) -> (r: Result<TaskStart, ToolReport>)
    ensures
        match task_refusal(registry@, subagent_type@) {
            Some(e) => r matches Err(rep) && rep@ == refusal_report(e) && final(store)@ == old(store)@,
            None => if subagent_type@ == "verified"@ {
                r matches Ok(TaskStart::Verified) && final(store)@ == old(store)@
            } else {
                match r {
                    Err(rep) => rep@ == refusal_report("Failed to create child session: "@ + clock_error())
                        && final(store)@ == old(store)@,
                    Ok(TaskStart::Agent { session, agent }) => agent_get(registry@, subagent_type@) == Some(agent@)
                        && subagent_started(
                        old(store)@,
                        final(store)@,
                        session@,
                        project_id@,
                        directory@,
                        parent_id@,
                        description@,
                        prompt@,
                    ),
                    Ok(TaskStart::Verified) => false,
                }
            },
        },
{
    match now_millis() {
        Ok(now) => {
            let u1 = random_uuid();
            let u2 = random_uuid();
            let u3 = random_uuid();
            let child_id = concat_str("ses-", u1.as_str());
            let message_id = concat_str("msg-", u2.as_str());
            let part_id = concat_str("part-", u3.as_str());
            start_subagent(
                store,
                registry,
                parent_id,
                project_id,
                directory,
                description,
                prompt,
                subagent_type,
                child_id,
                message_id,
                part_id,
                now,
            )
        },
        Err(e) => match TaskTool::route(registry, subagent_type) {
            Err(m) => Err(failed(m)),
            Ok(TaskRoute::Verified) => Ok(TaskStart::Verified),
            Ok(TaskRoute::Agent(_)) => {
                proof {
                    reveal_strlit("Failed to create child session: ");
                }
                Err(failed(concat_str("Failed to create child session: ", e.as_str())))
            },
        },
    }
}

/// The metadata of a subagent's report: its session, and on success the
/// task's title and the subagent that ran.
pub open spec fn subagent_metadata(description: Seq<char>, subagent_type: Seq<char>, child_id: Seq<char>, ok: bool) -> Seq<
    (Seq<char>, MetaView),
> {
    if ok {
        seq![
            ("title"@, MetaView::Text(description)),
            ("sessionId"@, MetaView::Text(child_id)),
            ("subagent"@, MetaView::Text(subagent_type)),
        ]
    } else {
        seq![("sessionId"@, MetaView::Text(child_id))]
    }
}

/// What the caller of a task is told once the subagent ran in session
/// `child_id`: its text parts joined by newlines, or the failure.
pub fn subagent_report(description: &str, subagent_type: &str, child_id: &str, outcome: Result<Vec<Part>, String>) -> (r:
    ToolReport)
    ensures
        outcome is Ok ==> r@ == (ReportView {
            status: ToolStatus::Completed,
            output: join(text_of_parts(outcome->Ok_0@), "\n"@),
            error: None,
            metadata: subagent_metadata(description@, subagent_type@, child_id@, true),
        }),
        outcome is Err ==> r@ == (ReportView {
            status: ToolStatus::Error,
            output: Seq::empty(),
            error: Some("Subagent execution failed: "@ + outcome->Err_0@),
            metadata: subagent_metadata(description@, subagent_type@, child_id@, false),
        }),
{
    proof {
        reveal_strlit("title");
        reveal_strlit("sessionId");
        reveal_strlit("subagent");
        reveal_strlit("Subagent execution failed: ");
        reveal_strlit("");
    }
    match outcome {
        Ok(parts) => {
            let text = join_texts(&parts);
            let mut metadata: Vec<(String, MetaValue)> = Vec::new();
            metadata.push((owned("title"), MetaValue::Text(owned(description))));
            metadata.push((owned("sessionId"), MetaValue::Text(owned(child_id))));
            metadata.push((owned("subagent"), MetaValue::Text(owned(subagent_type))));
            let out = string_from_chars(&text);
            assert(out@ == join(text_of_parts(parts@), "\n"@));
            let r = ToolReport { status: ToolStatus::Completed, output: out, error: None, metadata };
            assert(r@.metadata =~= subagent_metadata(description@, subagent_type@, child_id@, true));
            r
        },
        Err(e) => {
            let mut metadata: Vec<(String, MetaValue)> = Vec::new();
            metadata.push((owned("sessionId"), MetaValue::Text(owned(child_id))));
            let r = ToolReport {
                status: ToolStatus::Error,
                output: owned(""),
                error: Some(concat_str("Subagent execution failed: ", e.as_str())),
                metadata,
            };
            assert(r@.metadata =~= subagent_metadata(description@, subagent_type@, child_id@, false));
            assert(r@.output =~= Seq::<char>::empty());
            r
        },
    }
}

/// How a verified pair ran: whether the arbiter completed the task, the
/// steps taken, what `task_complete` reported, the tool calls of both
/// agents, the two sessions and the pair, and the tokens used.
pub struct PairRun {
    pub completed: bool,
    pub steps: u32,
    pub summary: Option<String>,
    pub verification: Option<String>,
    pub tool_calls: Vec<AgentToolCall>,
    pub executor_session_id: String,
    pub arbiter_session_id: String,
    pub pair_id: String,
    pub input_tokens: u64,
    pub output_tokens: u64,
}

/// An optional text as metadata: the text, or null.
pub open spec fn text_or_null(t: Option<Seq<char>>) -> MetaView {
    match t {
        Some(x) => MetaView::Text(x),
        None => MetaView::Null,
    }
}

/// The metadata of a verified pair's report.
pub open spec fn pair_metadata(description: Seq<char>, run: PairRun) -> Seq<(Seq<char>, MetaView)> {
    seq![
        ("title"@, MetaView::Text(description)),
        ("subagent"@, MetaView::Text("verified"@)),
        ("completed"@, MetaView::Flag(run.completed)),
        ("steps"@, MetaView::Count(run.steps as u64)),
        ("executor_session_id"@, MetaView::Text(run.executor_session_id@)),
        ("arbiter_session_id"@, MetaView::Text(run.arbiter_session_id@)),
        ("pair_id"@, MetaView::Text(run.pair_id@)),
        ("summary"@, text_or_null(os(run.summary))),
        ("verification"@, text_or_null(os(run.verification))),
        ("total_input_tokens"@, MetaView::Count(run.input_tokens)),
        ("total_output_tokens"@, MetaView::Count(run.output_tokens)),
    ]
}

fn text_or_null_of(t: &Option<String>) -> (r: MetaValue)
    ensures
        r@ == text_or_null(os(*t)),
{
    match t {
        Some(x) => MetaValue::Text(owned(x.as_str())),
        None => MetaValue::Null,
    }
}

fn entry(key: &str, v: MetaValue) -> (r: (String, MetaValue))
    ensures
        r.0@ == key@,
        r.1 == v,
{
    (owned(key), v)
}

/// What the caller of a task is told once a verified pair ran: the report
/// of the run (see [`pair_report`]) with its metadata, or the failure.
pub fn verified_report(description: &str, outcome: Result<PairRun, String>) -> (r: ToolReport)
    ensures
        outcome is Ok ==> r@ == (ReportView {
            status: ToolStatus::Completed,
            output: pair_report(
                outcome->Ok_0.completed,
                outcome->Ok_0.steps,
                os(outcome->Ok_0.summary),
                os(outcome->Ok_0.verification),
                outcome->Ok_0.tool_calls@,
            ),
            error: None,
            metadata: pair_metadata(description@, outcome->Ok_0),
        }),
        outcome is Err ==> r@ == (ReportView {
            status: ToolStatus::Error,
            output: Seq::empty(),
            error: Some("Verified agent execution failed: "@ + outcome->Err_0@),
            metadata: seq![("subagent"@, MetaView::Text("verified"@))],
        }),
{
    proof {
        reveal_strlit("title");
        reveal_strlit("subagent");
        reveal_strlit("verified");
        reveal_strlit("completed");
        reveal_strlit("steps");
        reveal_strlit("executor_session_id");
        reveal_strlit("arbiter_session_id");
        reveal_strlit("pair_id");
        reveal_strlit("summary");
        reveal_strlit("verification");
        reveal_strlit("total_input_tokens");
        reveal_strlit("total_output_tokens");
        reveal_strlit("Verified agent execution failed: ");
        reveal_strlit("");
    }
    match outcome {
        Ok(run) => {
            let summary = match &run.summary {
                Some(s) => Some(s.as_str()),
                None => None,
            };
            let verification = match &run.verification {
                Some(v) => Some(v.as_str()),
                None => None,
            };
            let output = TaskTool::pair_output(run.completed, run.steps, summary, verification, &run.tool_calls);
            let mut m: Vec<(String, MetaValue)> = Vec::new();
            m.push(entry("title", MetaValue::Text(owned(description))));
            m.push(entry("subagent", MetaValue::Text(owned("verified"))));
            m.push(entry("completed", MetaValue::Flag(run.completed)));
            m.push(entry("steps", MetaValue::Count(run.steps as u64)));
            m.push(entry("executor_session_id", MetaValue::Text(owned(run.executor_session_id.as_str()))));
            m.push(entry("arbiter_session_id", MetaValue::Text(owned(run.arbiter_session_id.as_str()))));
            m.push(entry("pair_id", MetaValue::Text(owned(run.pair_id.as_str()))));
            m.push(entry("summary", text_or_null_of(&run.summary)));
            m.push(entry("verification", text_or_null_of(&run.verification)));
            m.push(entry("total_input_tokens", MetaValue::Count(run.input_tokens)));
            m.push(entry("total_output_tokens", MetaValue::Count(run.output_tokens)));
            let r = ToolReport { status: ToolStatus::Completed, output, error: None, metadata: m };
            assert(r@.metadata =~= pair_metadata(description@, run));
            r
        },
        Err(e) => {
            let mut m: Vec<(String, MetaValue)> = Vec::new();
            m.push(entry("subagent", MetaValue::Text(owned("verified"))));
            let r = ToolReport {
                status: ToolStatus::Error,
                output: owned(""),
                error: Some(concat_str("Verified agent execution failed: ", e.as_str())),
                metadata: m,
            };
            assert(r@.metadata =~= seq![("subagent"@, MetaView::Text("verified"@))]);
            assert(r@.output =~= Seq::<char>::empty());
            r
        },
    }
}

impl TaskTool {
    /// The tool, described for the subagents `agents`.
    pub fn new(agents: &Vec<AgentInfo>) -> (r: TaskTool)
        ensures
            r.description_view() == task_description(avs(agents@)),
    {
        let mut lines: Vec<Vec<char>> = Vec::new();
        let mut i: usize = 0;
        let ghost f = |a: AgentView| agent_line(a);
        proof {
            reveal_strlit("- ");
            reveal_strlit(": ");
            reveal_strlit("This subagent should only be called manually by the user.");
            reveal_strlit("- verified: Agent for tasks requiring verified completion with automatic testing and validation before marking done.");
            reveal_strlit("{agents}");
            reveal_strlit("\n");
        }
        while i < agents.len()
            invariant
                i <= agents@.len(),
                f == (|a: AgentView| agent_line(a)),
                dv(lines@) =~= avs(agents@).take(i as int).map_values(f),
            decreases agents@.len() - i,
        {
            let a = &agents[i];
            let mut l = lit("- ");
            push_str(&mut l, a.name.as_str());
            push_str(&mut l, ": ");
            match &a.description {
                Some(d) => push_str(&mut l, d.as_str()),
                None => push_str(&mut l, "This subagent should only be called manually by the user."),
            }
            let ghost b = dv(lines@);
            assert(l@ == agent_line(a@));
            lines.push(l);
            assert(dv(lines@) =~= b.push(agent_line(a@)));
            assert(avs(agents@).take(i as int + 1) =~= avs(agents@).take(i as int).push(a@));
            i = i + 1;
        }
        assert(avs(agents@).take(agents@.len() as int) =~= avs(agents@));
        let ghost before = dv(lines@);
        let vl = lit("- verified: Agent for tasks requiring verified completion with automatic testing and validation before marking done.");
        lines.push(vl);
        assert(dv(lines@) =~= before.push(verified_line()));
        assert(dv(lines@) =~= avs(agents@).map_values(|a: AgentView| agent_line(a)).push(verified_line()));
        let nl = lit("\n");
        let list = join_vecs(&lines, &nl);
        let t = chars_of(TASK_DESCRIPTION);
        let p = lit("{agents}");
        let d = replace_first_in(&t, &p, &list);
        assert(d@ == task_description(avs(agents@)));
        TaskTool { description: string_from_chars(&d) }
    }

    /// The tool's description.
    pub closed spec fn description_view(&self) -> Seq<char> {
        self.description@
    }

    /// The tool's name.
    pub fn name(&self) -> (r: &'static str)
        ensures
            r@ == "task"@,
    {
        proof {
            reveal_strlit("task");
        }
        "task"
    }

    /// The tool's description.
    pub fn description(&self) -> (r: &str)
        ensures
            r@ == self.description_view(),
    {
        self.description.as_str()
    }

    /// Where a task for `subagent_type` goes: `verified` runs a verified
    /// pair; otherwise the agent must exist and be usable as a subagent.
    pub fn route(registry: &AgentRegistry, subagent_type: &str) -> (r: Result<TaskRoute, String>)
        ensures
            subagent_type@ == "verified"@ ==> r == Ok::<TaskRoute, String>(TaskRoute::Verified),
            subagent_type@ != "verified"@ ==> match agent_get(registry@, subagent_type@) {
                None => r is Err && r->Err_0@ == unknown_agent_message(subagent_type@, subagents(registry@)),
                Some(a) => if is_subagent_mode(a.mode) {
                    r matches Ok(TaskRoute::Agent(x)) && x@ == a
                } else {
                    r is Err && r->Err_0@ == not_subagent_message(subagent_type@, a.mode)
                },
            },
    {
        proof {
            reveal_strlit("verified");
            reveal_strlit("Unknown agent type: '");
            reveal_strlit("'. Available subagents: ");
            reveal_strlit(", ");
            reveal_strlit("Agent '");
            reveal_strlit("' cannot be used as a subagent (mode: ");
            reveal_strlit(")");
            reveal_strlit("Primary");
            reveal_strlit("Subagent");
            reveal_strlit("All");
        }
        if str_eq(subagent_type, "verified") {
            return Ok(TaskRoute::Verified);
        }
        match registry.get(subagent_type) {
            None => {
                let available = registry.get_subagents();
                let mut names: Vec<Vec<char>> = Vec::new();
                let mut i: usize = 0;
                while i < available.len()
                    invariant
                        i <= available@.len(),
                        dv(names@) =~= avs(available@).take(i as int).map_values(|a: AgentView| a.name),
                    decreases available@.len() - i,
                {
                    let ghost b = dv(names@);
                    let n = chars_of(available[i].name.as_str());
                    names.push(n);
                    assert(dv(names@) =~= b.push(available@[i as int]@.name));
                    assert(avs(available@).take(i as int + 1) =~= avs(available@).take(i as int).push(available@[i as int]@));
                    i = i + 1;
                }
                assert(avs(available@).take(available@.len() as int) =~= avs(available@));
                let sep = lit(", ");
                let joined = join_vecs(&names, &sep);
                let mut m = lit("Unknown agent type: '");
                push_str(&mut m, subagent_type);
                push_str(&mut m, "'. Available subagents: ");
                push_all(&mut m, &joined);
                Err(string_from_chars(&m))
            },
            Some(a) => {
                if a.is_subagent() {
                    Ok(TaskRoute::Agent(a))
                } else {
                    let mut m = lit("Agent '");
                    push_str(&mut m, subagent_type);
                    push_str(&mut m, "' cannot be used as a subagent (mode: ");
                    let mode = match a.mode {
                        AgentMode::Primary => "Primary",
                        AgentMode::Subagent => "Subagent",
                        AgentMode::All => "All",
                    };
                    push_str(&mut m, mode);
                    push_str(&mut m, ")");
                    Err(string_from_chars(&m))
                }
            },
        }
    }

    /// The title of a subagent's session.
    pub fn child_title(description: &str) -> (r: String)
        ensures
            r@ == "Subagent: "@ + description@,
    {
        concat_str("Subagent: ", description)
    }

    /// What the caller is told of a verified pair's run (see
    /// [`pair_report`]).
    pub fn pair_output(
        completed: bool,
        steps: u32,
        summary: Option<&str>,
        verification: Option<&str>,
        calls: &Vec<AgentToolCall>,
    ) -> (r: String)
        ensures
            r@ == pair_report(completed, steps, match summary {
                Some(s) => Some(s@),
                None => None,
            }, match verification {
                Some(v) => Some(v@),
                None => None,
            }, calls@),
    {
        proof {
            reveal_strlit("\u{2705} Task completed and verified in ");
            reveal_strlit(" step(s).\n\n");
            reveal_strlit("**Summary:** ");
            reveal_strlit("\n\n");
            reveal_strlit("**Verification:** ");
            reveal_strlit("\n");
            reveal_strlit("\u{26a0}\u{fe0f} Task incomplete after ");
            reveal_strlit(" step(s) (max steps reached).\n\n");
            reveal_strlit("The arbiter did not call task_complete. Review the executor and arbiter sessions for details.");
            reveal_strlit("\n**Tool calls:**\n");
            reveal_strlit("- ");
            reveal_strlit("\u{2713}");
            reveal_strlit("\u{2717}");
            reveal_strlit(" ");
            reveal_strlit("/");
            reveal_strlit(": ");
            reveal_strlit(" (");
            reveal_strlit("ms)\n");
        }
        let mut out: Vec<char> = Vec::new();
        if completed {
            push_str(&mut out, "\u{2705} Task completed and verified in ");
            let d = decimal_of(steps as u128);
            push_all(&mut out, &d);
            push_str(&mut out, " step(s).\n\n");
            match summary {
                Some(s) => {
                    push_str(&mut out, "**Summary:** ");
                    push_str(&mut out, s);
                    push_str(&mut out, "\n\n");
                },
                None => {},
            }
            match verification {
                Some(v) => {
                    push_str(&mut out, "**Verification:** ");
                    push_str(&mut out, v);
                    push_str(&mut out, "\n");
                },
                None => {},
            }
        } else {
            push_str(&mut out, "\u{26a0}\u{fe0f} Task incomplete after ");
            let d = decimal_of(steps as u128);
            push_all(&mut out, &d);
            push_str(&mut out, " step(s) (max steps reached).\n\n");
            push_str(&mut out, "The arbiter did not call task_complete. Review the executor and arbiter sessions for details.");
        }
        let ghost head = out@;
        if calls.len() > 0 {
            push_str(&mut out, "\n**Tool calls:**\n");
            let ghost mid = out@;
            let mut i: usize = 0;
            assert(calls@.take(0) =~= Seq::<AgentToolCall>::empty());
            while i < calls.len()
                invariant
                    i <= calls@.len(),
                    out@ == mid + call_lines(calls@.take(i as int)),
                decreases calls@.len() - i,
            {
                let c = &calls[i];
                assert(calls@.take(i as int + 1).drop_last() =~= calls@.take(i as int));
                assert(calls@.take(i as int + 1).last() == *c);
                push_call_line(&mut out, c);
                i = i + 1;
            }
            assert(calls@.take(calls@.len() as int) =~= calls@);
        }
        string_from_chars(&out)
    }
}

/// The step limit of a verified pair when the call gives none.
pub fn default_max_steps() -> (r: u32)
    ensures
        r == 5,
{
    5
}

} // verus!
