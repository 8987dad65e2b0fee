# crow_core

The core of Crow, a coding assistant that runs language-model agents with
tools over a project, written in Verus: the functions of the library are
proved against their `requires`/`ensures` contracts. A few items marked
`#[verifier::external_body]` are trusted rather than proved: they make the
calls into std and outside crates (the clock, random identifiers, chrono's
writing of a UTC time, regular expressions, the user's directories, Unicode
lowercasing, building a `String`), and their contracts state only what those
crates document. None of them panics on an input it admits: the clock's
reading before the Unix epoch and a time chrono cannot write come back as
values that verified code handles.

## Layout

- `src/` — the verified library.
  - `text.rs` — strings as character sequences: trimming, lines, search,
    replacement, decimal numbers, UTF-8 widths.
  - `types.rs`, `config.rs` — sessions, messages, parts and configuration.
  - `agent.rs` — built-in agents, the agent registry, permissions and
    agent files in markdown.
  - `session.rs`, `store.rs`, `keyed.rs` — the session store and its laws.
  - `lock.rs` — one running agent per session, and aborting it.
  - `todo.rs` — todo lists, shared by the two sessions of a verified pair.
  - `react.rs` — the conversation sent to the model, the streamed reply's
    lines and tool-call pieces, and the permission check of each tool call.
  - `turn.rs` — one turn of an agent as a state machine: the parts it
    records, what the model is told, the iteration limit and aborting.
  - `tools/task.rs` — starting a subagent (its child session and first
    message) or a verified pair, and what the caller is told.
  - `pair.rs` — the loop of a pair of agents (a worker and a judge, where a
    person may answer in place of the judge).
  - `patch.rs`, `tools.rs`, `tools/` — unified diffs and the tools' output.
  - `render.rs`, `cli.rs` — what the command line shows and its arguments.
  - `lsp.rs`, `storage.rs`, `sort.rs` — language-server framing, storage
    paths, a stable sort.
- `tests/` — tests of the library.
- `app/` — the command-line program around the library: files, processes,
  HTTP to the model and the terminal.
