//! Session, message and part records shared by the store, the agents and the tools.
use vstd::prelude::*;
use crate::text::owned;

verus! {

/// File-change totals of a session.
#[derive(Debug, Clone, PartialEq)]
pub struct SessionSummary {
    pub additions: u64,
    pub deletions: u64,
    pub files: u64,
    pub diffs: Option<Vec<FileDiff>>,
}

/// Changes made to one file.
#[derive(Debug, Clone, PartialEq)]
pub struct FileDiff {
    pub path: String,
    pub additions: u64,
    pub deletions: u64,
}

/// Where a shared session can be seen.
#[derive(Debug, Clone, PartialEq)]
pub struct SessionShare {
    pub url: String,
}

/// Timestamps of a session, in milliseconds since the Unix epoch.
#[derive(Debug, Clone, PartialEq)]
pub struct SessionTime {
    pub created: u64,
    pub updated: u64,
    pub compacting: Option<u64>,
}

/// Revert information of a session.
#[derive(Debug, Clone, PartialEq)]
pub struct SessionRevert {
    pub message_id: String,
    pub part_id: Option<String>,
    pub snapshot: Option<String>,
    pub diff: Option<String>,
}

/// Timestamps of a message, in milliseconds since the Unix epoch.
#[derive(Debug, Clone, PartialEq)]
pub struct MessageTime {
    pub created: u64,
    pub completed: Option<u64>,
}

/// Title and body summarising a message.
#[derive(Debug, Clone, PartialEq)]
pub struct MessageSummary {
    pub title: Option<String>,
    pub body: Option<String>,
}

/// Working directory and project root of an assistant message.
#[derive(Debug, Clone, PartialEq)]
pub struct MessagePath {
    pub cwd: String,
    pub root: String,
}

/// Tokens used by one assistant message.
#[derive(Debug, Clone, PartialEq)]
pub struct TokenUsage {
    pub input: u64,
    pub output: u64,
    pub reasoning: u64,
    pub cache: CacheTokens,
}

/// Cached tokens read and written.
#[derive(Debug, Clone, PartialEq)]
pub struct CacheTokens {
    pub read: u64,
    pub write: u64,
}

/// Start and end of a tool execution, in milliseconds since the Unix epoch.
#[derive(Debug, Clone, PartialEq)]
pub struct ToolTime {
    pub start: u64,
    pub end: Option<u64>,
}

/// State of a tool call; `input` holds the call's arguments as JSON text.
#[derive(Debug, Clone, PartialEq)]
pub enum ToolState {
    Pending { input: String, raw: String },
    Running { input: String, title: Option<String>, time: ToolTime },
    Completed { input: String, output: String, title: String, time: ToolTime },
    Error { input: String, error: String, time: ToolTime },
}

/// A part of a message.
#[derive(Debug, Clone, PartialEq)]
pub enum Part {
    Text { id: String, session_id: String, message_id: String, text: String },
    Thinking { id: String, session_id: String, message_id: String, text: String },
    Tool {
        id: String,
        session_id: String,
        message_id: String,
        call_id: String,
        tool: String,
        state: ToolState,
    },
    File {
        id: String,
        session_id: String,
        message_id: String,
        mime: String,
        filename: Option<String>,
        url: String,
    },
    Patch { id: String, session_id: String, message_id: String, hash: String, files: Vec<String> },
}

impl Part {
    /// The part's identifier.
    pub fn id(&self) -> (r: &String)
        ensures
            r == part_id(*self),
    {
        match self {
            Part::Text { id, .. } => id,
            Part::Thinking { id, .. } => id,
            Part::Tool { id, .. } => id,
            Part::File { id, .. } => id,
            Part::Patch { id, .. } => id,
        }
    }
}

/// The identifier of a part.
pub open spec fn part_id(p: Part) -> String {
    match p {
        Part::Text { id, .. } => id,
        Part::Thinking { id, .. } => id,
        Part::Tool { id, .. } => id,
        Part::File { id, .. } => id,
        Part::Patch { id, .. } => id,
    }
}

/// A message of a session. The assistant's cost, a floating-point amount in
/// dollars, is held as its IEEE-754 bits; `metadata` holds JSON text.
#[derive(Debug, Clone, PartialEq)]
pub enum Message {
    User {
        id: String,
        session_id: String,
        time: MessageTime,
        summary: Option<MessageSummary>,
        metadata: Option<String>,
    },
    Assistant {
        id: String,
        session_id: String,
        parent_id: String,
        model_id: String,
        provider_id: String,
        mode: String,
        time: MessageTime,
        path: MessagePath,
        cost_bits: u64,
        tokens: TokenUsage,
        error: Option<String>,
        summary: Option<bool>,
        metadata: Option<String>,
    },
}

/// The identifier of a message.
pub open spec fn message_id(m: Message) -> String {
    match m {
        Message::User { id, .. } => id,
        Message::Assistant { id, .. } => id,
    }
}

impl Message {
    /// The message's identifier.
    pub fn id(&self) -> (r: &String)
        ensures
            r == message_id(*self),
    {
        match self {
            Message::User { id, .. } => id,
            Message::Assistant { id, .. } => id,
        }
    }
}

/// A tool call made by an agent of a verified pair during execution.
#[derive(Debug, Clone, PartialEq)]
pub struct AgentToolCall {
    pub agent: String,
    pub tool: String,
    pub step: u32,
    pub duration_ms: u64,
    pub success: bool,
}

/// What a completed `task_complete` call reported.
#[derive(Debug, Clone, PartialEq)]
pub struct TaskCompleteInfo {
    pub summary: String,
    pub verification: String,
}

/// Arguments of the `task_complete` tool.
#[derive(Debug, Clone, PartialEq)]
pub struct TaskCompleteArgs {
    pub summary: String,
    pub verification: String,
}

/// A position in a text document (0-based line and character).
#[derive(Debug, Clone, PartialEq)]
pub struct Position {
    pub line: u32,
    pub character: u32,
}

/// A range in a text document.
#[derive(Debug, Clone, PartialEq)]
pub struct Range {
    pub start: Position,
    pub end: Position,
}

/// A delta of a streamed model response.
#[derive(Debug, Clone, PartialEq)]
pub enum StreamDelta {
    Text(String),
    Reasoning(String),
    ToolCall { index: usize, id: Option<String>, name: Option<String>, arguments: String },
    Usage { input: u64, output: u64 },
    Done,
}

/// Request to create a session.
#[derive(Debug, Clone, PartialEq)]
pub struct CreateSessionRequest {
    pub title: Option<String>,
    pub parent_id: Option<String>,
}

/// An entry of a directory listing.
#[derive(Debug, Clone, PartialEq)]
pub struct FileEntry {
    pub name: String,
    pub path: String,
    pub is_dir: bool,
    pub size: Option<u64>,
}

/// A directory listing.
#[derive(Debug, Clone, PartialEq)]
pub struct FileListResponse {
    pub path: String,
    pub entries: Vec<FileEntry>,
    pub count: usize,
}

/// Output of a shell command, line by line, then its exit code.
#[derive(Debug, Clone, PartialEq)]
pub enum ShellOutput {
    Stdout { data: String },
    Stderr { data: String },
    Exit { code: i32 },
}

/// A session. `metadata` holds arbitrary JSON text (used to record the
/// roles of a verified pair of sessions).
#[derive(Debug, Clone, PartialEq)]
pub struct Session {
    pub id: String,
    pub project_id: String,
    pub directory: String,
    pub parent_id: Option<String>,
    pub summary: Option<SessionSummary>,
    pub share: Option<SessionShare>,
    pub title: String,
    pub version: String,
    pub time: SessionTime,
    pub revert: Option<SessionRevert>,
    pub metadata: Option<String>,
}

pub open spec fn os(o: Option<String>) -> Option<Seq<char>> {
    match o {
        Some(s) => Some(s@),
        None => None,
    }
}

/// The mathematical content of a [`FileDiff`].
pub open spec fn file_diff_view(d: FileDiff) -> (Seq<char>, u64, u64) {
    (d.path@, d.additions, d.deletions)
}

/// The views of a list of file diffs.
pub open spec fn diffs_view(d: Seq<FileDiff>) -> Seq<(Seq<char>, u64, u64)> {
    d.map_values(|x: FileDiff| file_diff_view(x))
}

/// The mathematical content of a [`SessionSummary`].
pub open spec fn summary_view(s: SessionSummary) -> (u64, u64, u64, Option<Seq<(Seq<char>, u64, u64)>>) {
    (s.additions, s.deletions, s.files, match s.diffs {
        Some(d) => Some(diffs_view(d@)),
        None => None,
    })
}

/// The mathematical content of a [`SessionRevert`].
pub open spec fn revert_view(r: SessionRevert) -> (Seq<char>, Option<Seq<char>>, Option<Seq<char>>, Option<Seq<char>>) {
    (r.message_id@, os(r.part_id), os(r.snapshot), os(r.diff))
}

/// The mathematical content of a [`Session`].
pub struct SessionView {
    pub id: Seq<char>,
    pub project_id: Seq<char>,
    pub directory: Seq<char>,
    pub parent_id: Option<Seq<char>>,
    pub summary: Option<(u64, u64, u64, Option<Seq<(Seq<char>, u64, u64)>>)>,
    pub share: Option<Seq<char>>,
    pub title: Seq<char>,
    pub version: Seq<char>,
    pub time: SessionTime,
    pub revert: Option<(Seq<char>, Option<Seq<char>>, Option<Seq<char>>, Option<Seq<char>>)>,
    pub metadata: Option<Seq<char>>,
}

impl View for Session {
    type V = SessionView;

    open spec fn view(&self) -> SessionView {
        SessionView {
            id: self.id@,
            project_id: self.project_id@,
            directory: self.directory@,
            parent_id: os(self.parent_id),
            summary: match self.summary {
                Some(s) => Some(summary_view(s)),
                None => None,
            },
            share: match self.share {
                Some(s) => Some(s.url@),
                None => None,
            },
            title: self.title@,
            version: self.version@,
            time: self.time,
            revert: match self.revert {
                Some(r) => Some(revert_view(r)),
                None => None,
            },
            metadata: os(self.metadata),
        }
    }
}

fn copy_os(o: &Option<String>) -> (r: Option<String>)
    ensures
        os(r) == os(*o),
{
    match o {
        Some(s) => Some(owned(s.as_str())),
        None => None,
    }
}

impl SessionSummary {
    /// A copy with the same content.
    pub fn copy(&self) -> (r: SessionSummary)
        ensures
            summary_view(r) == summary_view(*self),
    {
        let diffs = match &self.diffs {
            Some(d) => {
                let mut v: Vec<FileDiff> = Vec::new();
                let mut i: usize = 0;
                while i < d.len()
                    invariant
                        i <= d@.len(),
                        diffs_view(v@) == diffs_view(d@).take(i as int),
                    decreases d@.len() - i,
                {
                    let e = FileDiff { path: owned(d[i].path.as_str()), additions: d[i].additions, deletions: d[i].deletions };
                    let ghost b = diffs_view(v@);
                    v.push(e);
                    assert(diffs_view(v@) =~= b.push(file_diff_view(e)));
                    assert(diffs_view(v@) =~= diffs_view(d@).take(i as int + 1));
                    i = i + 1;
                }
                assert(diffs_view(d@).take(d@.len() as int) =~= diffs_view(d@));
                Some(v)
            },
            None => None,
        };
        SessionSummary { additions: self.additions, deletions: self.deletions, files: self.files, diffs }
    }
}

impl Session {
    /// A copy with the same content.
    pub fn copy(&self) -> (r: Session)
        ensures
            r@ == self@,
    {
        Session {
            id: owned(self.id.as_str()),
            project_id: owned(self.project_id.as_str()),
            directory: owned(self.directory.as_str()),
            parent_id: copy_os(&self.parent_id),
            summary: match &self.summary {
                Some(s) => Some(s.copy()),
                None => None,
            },
            share: match &self.share {
                Some(s) => Some(SessionShare { url: owned(s.url.as_str()) }),
                None => None,
            },
            title: owned(self.title.as_str()),
            version: owned(self.version.as_str()),
            time: SessionTime { created: self.time.created, updated: self.time.updated, compacting: self.time.compacting },
            revert: match &self.revert {
                Some(r) => Some(SessionRevert {
                    message_id: owned(r.message_id.as_str()),
                    part_id: copy_os(&r.part_id),
                    snapshot: copy_os(&r.snapshot),
                    diff: copy_os(&r.diff),
                }),
                None => None,
            },
            metadata: copy_os(&self.metadata),
        }
    }
}

} // verus!
