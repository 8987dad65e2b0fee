//! The command line: which command the arguments ask for.
use vstd::prelude::*;
use crate::text::{chars_of, join, lit, owned, str_eq, string_from_chars, sv, dv, join_vecs};
use crate::tools::search::{parse_usize, parsed_usize};

verus! {

/// How the chat command shows its output.
#[derive(Debug, Clone, Copy, PartialEq, Eq, Structural)]
pub enum OutputMode {
    /// Everything, streamed (the default).
    Verbose,
    /// The final response only.
    Quiet,
    /// JSON, not streamed.
    Json,
}

/// What `parse_chat_args` makes of the arguments from `i` on, given the
/// session and mode seen so far and the message words collected so far.
pub open spec fn chat_args_from(
    args: Seq<Seq<char>>,
    i: int,
    session: Option<Seq<char>>,
    mode: OutputMode,
    words: Seq<Seq<char>>,
) -> (Option<Seq<char>>, Seq<Seq<char>>, OutputMode)
    decreases args.len() - i,
{
    if i < 0 || i >= args.len() {
        (session, words, mode)
    } else {
        let a = args[i];
        if a == "--session"@ || a == "-s"@ {
            if i + 1 < args.len() {
                chat_args_from(args, i + 2, Some(args[i + 1]), mode, words)
            } else {
                chat_args_from(args, i + 1, session, mode, words)
            }
        } else if a == "--json"@ || a == "-j"@ {
            chat_args_from(args, i + 1, session, OutputMode::Json, words)
        } else if a == "--quiet"@ || a == "-q"@ {
            chat_args_from(args, i + 1, session, OutputMode::Quiet, words)
        } else {
            chat_args_from(args, i + 1, session, mode, words.push(a))
        }
    }
}

/// The session, the message (the other words joined by spaces) and the
/// output mode given to the chat command. `--session`/`-s` takes the next
/// argument (and is dropped when there is none), `--json`/`-j` and
/// `--quiet`/`-q` set the mode; the last of each wins.
pub open spec fn chat_args(args: Seq<Seq<char>>) -> (Option<Seq<char>>, Seq<char>, OutputMode) {
    let r = chat_args_from(args, 0, None, OutputMode::Verbose, Seq::empty());
    (r.0, join(r.1, " "@), r.2)
}

/// The session, message and output mode of the chat command's arguments
/// (see [`chat_args`]).
pub fn parse_chat_args(args: &[String]) -> (r: (Option<String>, String, OutputMode))
    ensures
        ({
            let c = chat_args(sv(args@));
            &&& match r.0 {
                Some(s) => c.0 == Some(s@),
                None => c.0 is None,
            }
            &&& r.1@ == c.1
            &&& r.2 == c.2
        }),
{
    proof {
        reveal_strlit("--session");
        reveal_strlit("-s");
        reveal_strlit("--json");
        reveal_strlit("-j");
        reveal_strlit("--quiet");
        reveal_strlit("-q");
        reveal_strlit(" ");
    }
    let ghost a = sv(args@);
    let mut session: Option<String> = None;
    let mut mode = OutputMode::Verbose;
    let mut words: Vec<Vec<char>> = Vec::new();
    let mut i: usize = 0;
    assert(dv(words@) =~= Seq::<Seq<char>>::empty());
    while i < args.len()
        invariant
            a == sv(args@),
            i <= args@.len(),
            chat_args_from(a, i as int, match session {
                Some(s) => Some(s@),
                None => None,
            }, mode, dv(words@)) == chat_args_from(a, 0, None, OutputMode::Verbose, Seq::empty()),
        decreases args@.len() - i,
    {
        let arg = args[i].as_str();
        assert(a[i as int] == arg@);
        if str_eq(arg, "--session") || str_eq(arg, "-s") {
            if i + 1 < args.len() {
                assert(a[i + 1] == args@[i + 1]@);
                session = Some(owned(args[i + 1].as_str()));
                i = i + 2;
                continue;
            }
        } else if str_eq(arg, "--json") || str_eq(arg, "-j") {
            mode = OutputMode::Json;
            i = i + 1;
            continue;
        } else if str_eq(arg, "--quiet") || str_eq(arg, "-q") {
            mode = OutputMode::Quiet;
            i = i + 1;
            continue;
        } else {
            let w = chars_of(arg);
            let ghost b = dv(words@);
            words.push(w);
            assert(dv(words@) =~= b.push(arg@));
        }
        i = i + 1;
    }
    let sp = lit(" ");
    let msg = join_vecs(&words, &sp);
    (session, string_from_chars(&msg), mode)
}

/// A command of the command line.
#[derive(Debug, Clone, PartialEq)]
pub enum Command {
    /// Print the usage text.
    Usage,
    /// Chat (the message may be empty: then the chat usage is printed).
    Chat { session_id: Option<String>, message: String, mode: OutputMode },
    /// List the sessions.
    Sessions,
    /// Create a session with an optional title.
    New { title: Option<String> },
    /// Show the messages of a session.
    Messages { session_id: String },
    /// The messages command was given no session.
    MessagesUsage,
    /// Show the storage paths.
    Paths,
    /// Show the last `count` lines of the agent log.
    Logs { count: usize },
    /// Print the system prompt of an agent.
    Prompt { agent: String },
}

/// The count asked of the logs command: the argument when it parses, else 20.
pub open spec fn log_count(arg: Option<Seq<char>>) -> nat {
    match arg {
        Some(s) => match parsed_usize(s) {
            Some(v) => v,
            None => 20,
        },
        None => 20,
    }
}

/// The command named by the arguments (the program name first).
pub fn parse_command(args: &Vec<String>) -> (r: Command)
    ensures
        args@.len() < 2 ==> r == Command::Usage,
        args@.len() >= 2 && args@[1]@ == "sessions"@ ==> r == Command::Sessions,
        args@.len() >= 2 && args@[1]@ == "list"@ ==> r == Command::Sessions,
        args@.len() >= 2 && args@[1]@ == "paths"@ ==> r == Command::Paths,
        args@.len() >= 2 && (args@[1]@ == "-h"@ || args@[1]@ == "--help"@ || args@[1]@ == "help"@) ==> r
            == Command::Usage,
        args@.len() >= 2 && args@[1]@ == "messages"@ ==> if args@.len() < 3 {
            r == Command::MessagesUsage
        } else {
            (r matches Command::Messages { session_id } && session_id@ == args@[2]@)
        },
        args@.len() >= 2 && args@[1]@ == "new"@ ==> (r matches Command::New { title } && if args@.len() >= 3 {
            title is Some && title->0@ == args@[2]@
        } else {
            title is None
        }),
        args@.len() >= 2 && args@[1]@ == "logs"@ ==> (r matches Command::Logs { count } && count == log_count(
            if args@.len() >= 3 { Some(args@[2]@) } else { None },
        )),
        args@.len() >= 2 && args@[1]@ == "prompt"@ ==> (r matches Command::Prompt { agent } && agent@ == if args@.len()
            >= 3 {
            args@[2]@
        } else {
            "build"@
        }),
        args@.len() >= 2 && args@[1]@ == "chat"@ ==> (r matches Command::Chat { session_id, message, mode } && {
            let c = chat_args(sv(args@.skip(2)));
            &&& match session_id {
                Some(s) => c.0 == Some(s@),
                None => c.0 is None,
            }
            &&& message@ == c.1
            &&& mode == c.2
        }),
        args@.len() >= 2 && !(args@[1]@ == "chat"@ || args@[1]@ == "sessions"@ || args@[1]@ == "list"@
            || args@[1]@ == "new"@ || args@[1]@ == "messages"@ || args@[1]@ == "paths"@ || args@[1]@ == "logs"@
            || args@[1]@ == "prompt"@ || args@[1]@ == "-h"@ || args@[1]@ == "--help"@ || args@[1]@ == "help"@)
            ==> (r matches Command::Chat { session_id, message, mode } && session_id is None && mode
            == OutputMode::Verbose && message@ == join(sv(args@.skip(1)), " "@)),
{
    proof {
        reveal_strlit("chat");
        reveal_strlit("sessions");
        reveal_strlit("list");
        reveal_strlit("new");
        reveal_strlit("messages");
        reveal_strlit("paths");
        reveal_strlit("logs");
        reveal_strlit("prompt");
        reveal_strlit("-h");
        reveal_strlit("--help");
        reveal_strlit("help");
        reveal_strlit("build");
        reveal_strlit(" ");
    }
    if args.len() < 2 {
        return Command::Usage;
    }
    let cmd = args[1].as_str();
    assert(cmd@ == args@[1]@);
    assert("chat"@.len() == 4 && "sessions"@.len() == 8 && "list"@.len() == 4 && "list"@[0] == 'l');
    assert("new"@.len() == 3 && "messages"@.len() == 8 && "messages"@[0] == 'm' && "paths"@.len() == 5);
    assert("logs"@.len() == 4 && "logs"@[0] == 'l' && "logs"@[1] == 'o' && "list"@[1] == 'i');
    assert("prompt"@.len() == 6 && "-h"@.len() == 2 && "--help"@.len() == 6 && "help"@.len() == 4 && "help"@[0] == 'h');
    assert("chat"@[0] == 'c' && "sessions"@[0] == 's' && "prompt"@[0] == 'p' && "--help"@[0] == '-');
    if str_eq(cmd, "chat") {
        let rest = vstd::slice::slice_subrange(args.as_slice(), 2, args.len());
        assert(rest@ =~= args@.skip(2));
        let (session_id, message, mode) = parse_chat_args(rest);
        return Command::Chat { session_id, message, mode };
    }
    if str_eq(cmd, "sessions") || str_eq(cmd, "list") {
        return Command::Sessions;
    }
    if str_eq(cmd, "new") {
        let title = if args.len() >= 3 { Some(owned(args[2].as_str())) } else { None };
        return Command::New { title };
    }
    if str_eq(cmd, "messages") {
        if args.len() < 3 {
            return Command::MessagesUsage;
        }
        return Command::Messages { session_id: owned(args[2].as_str()) };
    }
    if str_eq(cmd, "paths") {
        return Command::Paths;
    }
    if str_eq(cmd, "logs") {
        let count = if args.len() >= 3 {
            let c = chars_of(args[2].as_str());
            match parse_usize(&c) {
                Some(v) => v,
                None => 20,
            }
        } else {
            20
        };
        return Command::Logs { count };
    }
    if str_eq(cmd, "prompt") {
        let agent = if args.len() >= 3 { owned(args[2].as_str()) } else { owned("build") };
        return Command::Prompt { agent };
    }
    if str_eq(cmd, "-h") || str_eq(cmd, "--help") || str_eq(cmd, "help") {
        return Command::Usage;
    }
    let mut words: Vec<Vec<char>> = Vec::new();
    let mut i: usize = 1;
    assert(sv(args@.skip(1)).take(0) =~= Seq::<Seq<char>>::empty());
    while i < args.len()
        invariant
            1 <= i <= args@.len(),
            dv(words@) =~= sv(args@.skip(1)).take(i - 1),
        decreases args@.len() - i,
    {
        let w = chars_of(args[i].as_str());
        let ghost b = dv(words@);
        words.push(w);
        assert(dv(words@) =~= b.push(w@));
        assert(sv(args@.skip(1)).take(i as int) =~= sv(args@.skip(1)).take(i - 1).push(args@[i as int]@));
        i = i + 1;
    }
    assert(sv(args@.skip(1)).take(args@.len() - 1) =~= sv(args@.skip(1)));
    let sp = lit(" ");
    let msg = join_vecs(&words, &sp);
    Command::Chat { session_id: None, message: string_from_chars(&msg), mode: OutputMode::Verbose }
}

/// What the chat arguments give from `i` on depends on those arguments
/// alone.
proof fn lemma_chat_args_tail(
    x: Seq<Seq<char>>,
    y: Seq<Seq<char>>,
    i: int,
    session: Option<Seq<char>>,
    mode: OutputMode,
    words: Seq<Seq<char>>,
)
    requires
        0 <= i,
        x.len() == y.len(),
        forall|j: int| i <= j < x.len() ==> x[j] == y[j],
    ensures
        chat_args_from(x, i, session, mode, words) == chat_args_from(y, i, session, mode, words),
    decreases x.len() - i,
{
    if i < x.len() {
        if i + 1 < x.len() {
            lemma_chat_args_tail(x, y, i + 2, Some(x[i + 1]), mode, words);
        }
        lemma_chat_args_tail(x, y, i + 1, session, mode, words);
        lemma_chat_args_tail(x, y, i + 1, session, OutputMode::Json, words);
        lemma_chat_args_tail(x, y, i + 1, session, OutputMode::Quiet, words);
        lemma_chat_args_tail(x, y, i + 1, session, mode, words.push(x[i]));
    }
}

/// The short chat flags mean what the long ones mean: `-s` followed by a
/// session id, `-j` and `-q` give the same session, message and mode as
/// `--session`, `--json` and `--quiet`, whatever follows them.
pub proof fn law_short_flags(s: Seq<char>, rest: Seq<Seq<char>>)
    ensures
        chat_args(seq!["-s"@, s] + rest) == chat_args(seq!["--session"@, s] + rest),
        chat_args(seq!["-j"@] + rest) == chat_args(seq!["--json"@] + rest),
        chat_args(seq!["-q"@] + rest) == chat_args(seq!["--quiet"@] + rest),
{
    reveal_strlit("-s");
    reveal_strlit("--session");
    reveal_strlit("-j");
    reveal_strlit("--json");
    reveal_strlit("-q");
    reveal_strlit("--quiet");
    let x = seq!["-s"@, s] + rest;
    let y = seq!["--session"@, s] + rest;
    assert(x[0] == "-s"@ && y[0] == "--session"@ && x[1] == s && y[1] == s);
    lemma_chat_args_tail(x, y, 2, Some(s), OutputMode::Verbose, Seq::empty());
    let x = seq!["-j"@] + rest;
    let y = seq!["--json"@] + rest;
    assert(x[0] == "-j"@ && y[0] == "--json"@);
    assert("-j"@ != "-s"@) by { assert("-j"@[1] != "-s"@[1]); }
    assert("-j"@ != "--session"@ && "--json"@ != "--session"@ && "--json"@ != "-s"@) by {
        assert("--json"@[2] != "--session"@[2]);
    }
    lemma_chat_args_tail(x, y, 1, None, OutputMode::Json, Seq::empty());
    let x = seq!["-q"@] + rest;
    let y = seq!["--quiet"@] + rest;
    assert(x[0] == "-q"@ && y[0] == "--quiet"@);
    assert("-q"@ != "-s"@ && "-q"@ != "-j"@) by {
        assert("-q"@[1] != "-s"@[1]);
        assert("-q"@[1] != "-j"@[1]);
    }
    assert("-q"@ != "--session"@ && "-q"@ != "--json"@ && "--quiet"@ != "--session"@ && "--quiet"@ != "--json"@
        && "--quiet"@ != "-s"@ && "--quiet"@ != "-j"@) by {
        assert("--quiet"@[2] != "--session"@[2]);
        assert("--quiet"@[2] != "--json"@[2]);
    }
    lemma_chat_args_tail(x, y, 1, None, OutputMode::Quiet, Seq::empty());
}

/// `-s` (like `--session`) takes the next argument as the session, and
/// neither is part of the message.
pub proof fn law_session_flag(s: Seq<char>, rest: Seq<Seq<char>>)
    ensures
        chat_args(seq!["-s"@, s]).0 == Some(s),
        chat_args(seq!["-s"@, s]).1 == Seq::<char>::empty(),
        chat_args(seq!["-s"@, s] + rest) == chat_args(seq!["--session"@, s] + rest),
{
    reveal_strlit("-s");
    law_short_flags(s, rest);
    let x = seq!["-s"@, s];
    assert(x[0] == "-s"@);
    assert(chat_args_from(x, 2, Some(s), OutputMode::Verbose, Seq::empty()) == (Some(s), Seq::<Seq<char>>::empty(), OutputMode::Verbose));
}

} // verus!
