//! Where sessions, messages, parts and logs are kept on disk, and reading
//! back the end of a log. Creating directories and reading and writing the
//! files is I/O and happens outside.
use vstd::prelude::*;
use crate::text::{chars_of, concat_str, dv, lines, lines_of, owned, string_from_chars, sv};
use crate::tools::edit::{PatchTool, resolved_path};

verus! {

/// `dirs::data_dir`: the user's data directory (`$XDG_DATA_HOME` or
/// `~/.local/share` on Linux), if there is one. It depends on the
/// environment, so nothing is stated of it.
#[verifier::external_body]
fn data_dir() -> Option<String> {
    match dirs::data_dir() {
        Some(p) => Some(p.to_string_lossy().to_string()),
        None => None,
    }
}

/// `dirs::state_dir`: the user's state directory (`$XDG_STATE_HOME` or
/// `~/.local/state` on Linux), if there is one. It depends on the
/// environment, so nothing is stated of it.
#[verifier::external_body]
fn state_dir() -> Option<String> {
    match dirs::state_dir() {
        Some(p) => Some(p.to_string_lossy().to_string()),
        None => None,
    }
}

/// `b` joined to `a` as a path.
pub fn join_path(a: &str, b: &str) -> (r: String)
    ensures
        r@ == resolved_path(a@, b@),
{
    PatchTool::resolve_path(a, b)
}

/// Session, message and part files kept under one root directory.
pub struct CrowStorage {
    root: String,
}

/// The path of a session's file.
pub open spec fn session_file(root: Seq<char>, project_id: Seq<char>, session_id: Seq<char>) -> Seq<char> {
    resolved_path(resolved_path(resolved_path(root, "session"@), project_id), session_id + ".json"@)
}

/// The path of a message's file.
pub open spec fn message_file(root: Seq<char>, session_id: Seq<char>, message_id: Seq<char>) -> Seq<char> {
    resolved_path(resolved_path(resolved_path(root, "message"@), session_id), message_id + ".json"@)
}

/// The path of a part's file.
pub open spec fn part_file(root: Seq<char>, message_id: Seq<char>, part_id: Seq<char>) -> Seq<char> {
    resolved_path(resolved_path(resolved_path(root, "part"@), message_id), part_id + ".json"@)
}

impl CrowStorage {
    /// Storage under the data directory: `<data>/crow/storage`. Fails when
    /// there is no data directory.
    pub fn new() -> (r: Result<CrowStorage, String>)
        ensures
            r is Err ==> r->Err_0@ == "Failed to determine data directory"@,
            r matches Ok(s) ==> exists|d: Seq<char>| s.root_view() == resolved_path(resolved_path(d, "crow"@), "storage"@),
    {
        match data_dir() {
            Some(d) => {
                let crow = join_path(d.as_str(), "crow");
                Ok(CrowStorage { root: join_path(crow.as_str(), "storage") })
            },
            None => {
                proof {
                    reveal_strlit("Failed to determine data directory");
                }
                Err(owned("Failed to determine data directory"))
            },
        }
    }

    /// Storage under the directory `root`.
    pub fn with_root(root: String) -> (r: CrowStorage)
        ensures
            r.root_view() == root@,
    {
        CrowStorage { root }
    }

    /// The root directory.
    pub closed spec fn root_view(&self) -> Seq<char> {
        self.root@
    }

    /// The root directory.
    pub fn root(&self) -> (r: &str)
        ensures
            r@ == self.root_view(),
    {
        self.root.as_str()
    }

    /// Get storage ready; nothing is left to do once the directories exist.
    pub fn init_sync(&self) -> (r: Result<(), String>)
        ensures
            r is Ok,
    {
        Ok(())
    }

    /// The directory of the sessions of a project.
    pub fn session_dir(&self, project_id: &str) -> (r: String)
        ensures
            r@ == resolved_path(resolved_path(self.root_view(), "session"@), project_id@),
    {
        proof {
            reveal_strlit("session");
        }
        let s = join_path(self.root.as_str(), "session");
        join_path(s.as_str(), project_id)
    }

    /// The file of a session.
    pub fn session_path(&self, project_id: &str, session_id: &str) -> (r: String)
        ensures
            r@ == session_file(self.root_view(), project_id@, session_id@),
    {
        proof {
            reveal_strlit(".json");
        }
        let d = self.session_dir(project_id);
        let f = concat_str(session_id, ".json");
        join_path(d.as_str(), f.as_str())
    }

    /// The directory of the messages of a session.
    pub fn message_dir(&self, session_id: &str) -> (r: String)
        ensures
            r@ == resolved_path(resolved_path(self.root_view(), "message"@), session_id@),
    {
        proof {
            reveal_strlit("message");
        }
        let s = join_path(self.root.as_str(), "message");
        join_path(s.as_str(), session_id)
    }

    /// The file of a message.
    pub fn message_path(&self, session_id: &str, message_id: &str) -> (r: String)
        ensures
            r@ == message_file(self.root_view(), session_id@, message_id@),
    {
        proof {
            reveal_strlit(".json");
        }
        let d = self.message_dir(session_id);
        let f = concat_str(message_id, ".json");
        join_path(d.as_str(), f.as_str())
    }

    /// The directory of the parts of a message.
    pub fn part_dir(&self, message_id: &str) -> (r: String)
        ensures
            r@ == resolved_path(resolved_path(self.root_view(), "part"@), message_id@),
    {
        proof {
            reveal_strlit("part");
        }
        let s = join_path(self.root.as_str(), "part");
        join_path(s.as_str(), message_id)
    }

    /// The file of a part.
    pub fn part_path(&self, message_id: &str, part_id: &str) -> (r: String)
        ensures
            r@ == part_file(self.root_view(), message_id@, part_id@),
    {
        proof {
            reveal_strlit(".json");
        }
        let d = self.part_dir(message_id);
        let f = concat_str(part_id, ".json");
        join_path(d.as_str(), f.as_str())
    }
}

/// The last `n` lines of a text (all of them when there are fewer).
pub open spec fn last_lines(text: Seq<char>, n: nat) -> Seq<Seq<char>> {
    let ls = lines(text);
    if ls.len() <= n {
        ls
    } else {
        ls.skip(ls.len() - n)
    }
}

/// Structured logs kept in one directory.
pub struct CrowLogger {
    log_dir: String,
}

impl CrowLogger {
    /// Logs under the state directory: `<state>/crow/logs` (relative
    /// `crow/logs` when there is no state directory).
    pub fn new() -> (r: CrowLogger)
        ensures
            r.dir_view() == resolved_path("crow"@, "logs"@) || exists|d: Seq<char>| r.dir_view() == resolved_path(
                resolved_path(d, "crow"@),
                "logs"@,
            ),
    {
        proof {
            reveal_strlit("crow");
            reveal_strlit("logs");
        }
        let base = match state_dir() {
            Some(d) => join_path(d.as_str(), "crow"),
            None => owned("crow"),
        };
        CrowLogger { log_dir: join_path(base.as_str(), "logs") }
    }

    /// Logs in the directory `log_dir`.
    pub fn with_dir(log_dir: String) -> (r: CrowLogger)
        ensures
            r.dir_view() == log_dir@,
    {
        CrowLogger { log_dir }
    }

    /// The log directory.
    pub closed spec fn dir_view(&self) -> Seq<char> {
        self.log_dir@
    }

    /// The log directory.
    pub fn log_dir(&self) -> (r: &String)
        ensures
            r@ == self.dir_view(),
    {
        &self.log_dir
    }

    /// The file of a log.
    pub fn log_path(&self, filename: &str) -> (r: String)
        ensures
            r@ == resolved_path(self.dir_view(), filename@),
    {
        join_path(self.log_dir.as_str(), filename)
    }

    /// The last `lines` lines of the agent log, given its contents (`None`
    /// when the file does not exist or cannot be read).
    pub fn read_agent_log(&self, contents: Option<&str>, lines: usize) -> (r: Vec<String>)
        ensures
            match contents {
                Some(t) => sv(r@) == last_lines(t@, lines as nat),
                None => r@.len() == 0,
            },
    {
        match contents {
            None => Vec::new(),
            Some(t) => {
                let c = chars_of(t);
                let ls = lines_of(&c);
                let start: usize = if ls.len() <= lines { 0 } else { ls.len() - lines };
                let mut out: Vec<String> = Vec::new();
                let mut i: usize = start;
                assert(dv(ls@).skip(start as int).take(0) =~= Seq::<Seq<char>>::empty());
                while i < ls.len()
                    invariant
                        start <= i <= ls@.len(),
                        sv(out@) =~= dv(ls@).skip(start as int).take(i - start),
                    decreases ls@.len() - i,
                {
                    let s = string_from_chars(&ls[i]);
                    let ghost b = sv(out@);
                    out.push(s);
                    assert(sv(out@) =~= b.push(s@));
                    assert(dv(ls@).skip(start as int).take(i - start + 1) =~= dv(ls@).skip(start as int).take(
                        i - start,
                    ).push(ls@[i as int]@));
                    i = i + 1;
                }
                assert(dv(ls@).skip(start as int).take(ls@.len() - start) =~= dv(ls@).skip(start as int));
                assert(start == 0 ==> dv(ls@).skip(0) =~= dv(ls@));
                out
            },
        }
    }
}

/// The program's logger: logs under the state directory, as
/// [`CrowLogger::new`] places them.
pub fn logger() -> (r: CrowLogger)
    ensures
        r.dir_view() == resolved_path("crow"@, "logs"@) || exists|d: Seq<char>| r.dir_view() == resolved_path(
            resolved_path(d, "crow"@),
            "logs"@,
        ),
{
    CrowLogger::new()
}

} // verus!
