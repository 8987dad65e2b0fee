//! Todo lists kept per session; the two sessions of a verified pair can
//! share one list.
use vstd::prelude::*;
use crate::text::owned;
use crate::keyed::{entries_map, get_entry, set_entry};

verus! {

/// What the todo-writing tool is for, as the model is told.
pub const TODO_WRITE_DESCRIPTION: &'static str = "Manage todo lists during coding sessions. Creates and updates task lists for tracking progress during complex operations. CRITICAL: Use this frequently to plan and track your work!";

/// What the todo-reading tool is for, as the model is told.
pub const TODO_READ_DESCRIPTION: &'static str = "Read existing todo lists. Retrieves the current task list state to track pending or completed items.";


/// Progress of a todo item.
#[derive(Debug, Clone, Copy, PartialEq, Eq, Structural)]
pub enum TodoStatus {
    Pending,
    InProgress,
    Completed,
}

/// An item of a todo list; `active_form` is the task in the present
/// continuous ("Building feature").
#[derive(Debug, Clone, PartialEq)]
pub struct TodoItem {
    pub content: String,
    pub status: TodoStatus,
    pub active_form: String,
}

/// The content of a todo item.
pub struct TodoView {
    pub content: Seq<char>,
    pub status: TodoStatus,
    pub active_form: Seq<char>,
}

impl View for TodoItem {
    type V = TodoView;

    open spec fn view(&self) -> TodoView {
        TodoView { content: self.content@, status: self.status, active_form: self.active_form@ }
    }
}

impl TodoItem {
    /// A copy with the same content.
    pub fn copy(&self) -> (r: TodoItem)
        ensures
            r@ == self@,
    {
        TodoItem { content: owned(self.content.as_str()), status: self.status, active_form: owned(self.active_form.as_str()) }
    }
}

/// The views of a list of todo items.
pub open spec fn tvs(s: Seq<TodoItem>) -> Seq<TodoView> {
    s.map_values(|t: TodoItem| t@)
}

/// The content of a todo store: the lists by storage key, and the storage
/// key of each session that shares a list.
pub struct TodosView {
    pub lists: Map<Seq<char>, Seq<TodoView>>,
    pub shared: Map<Seq<char>, Seq<char>>,
}

/// The key under which the list of a session is stored.
pub open spec fn todo_key(shared: Map<Seq<char>, Seq<char>>, session_id: Seq<char>) -> Seq<char> {
    if shared.dom().contains(session_id) {
        shared[session_id]
    } else {
        session_id
    }
}

/// The todo list of a session (empty when none was written).
pub open spec fn todos_of(v: TodosView, session_id: Seq<char>) -> Seq<TodoView> {
    let k = todo_key(v.shared, session_id);
    if v.lists.dom().contains(k) {
        v.lists[k]
    } else {
        Seq::empty()
    }
}

/// The tool that writes todo lists, and holds them.
pub struct TodoWriteTool {
    todos: Vec<(String, Vec<TodoItem>)>,
    shared_keys: Vec<(String, String)>,
}

impl View for TodoWriteTool {
    type V = TodosView;

    closed spec fn view(&self) -> TodosView {
        let m = entries_map(self.todos@);
        TodosView {
            lists: Map::new(|k: Seq<char>| m.dom().contains(k), |k: Seq<char>| tvs(m[k]@)),
            shared: Map::new(
                |k: Seq<char>| entries_map(self.shared_keys@).dom().contains(k),
                |k: Seq<char>| entries_map(self.shared_keys@)[k]@,
            ),
        }
    }
}

/// The tool's name.
pub open spec fn todowrite_name() -> Seq<char> {
    "todowrite"@
}

impl TodoWriteTool {
    /// A tool with no lists.
    pub fn new() -> (r: TodoWriteTool)
        ensures
            r@.lists == Map::<Seq<char>, Seq<TodoView>>::empty(),
            r@.shared == Map::<Seq<char>, Seq<char>>::empty(),
    {
        let r = TodoWriteTool { todos: Vec::new(), shared_keys: Vec::new() };
        assert(r@.lists =~= Map::<Seq<char>, Seq<TodoView>>::empty());
        assert(r@.shared =~= Map::<Seq<char>, Seq<char>>::empty());
        r
    }

    /// The tool's name.
    pub fn name(&self) -> (r: &'static str)
        ensures
            r@ == todowrite_name(),
    {
        proof {
            reveal_strlit("todowrite");
        }
        "todowrite"
    }

    /// What the tool is for.
    pub fn description(&self) -> (r: &'static str)
        ensures
            r@ == TODO_WRITE_DESCRIPTION@,
    {
        TODO_WRITE_DESCRIPTION
    }

    /// Make two sessions share one todo list: both are mapped to the key
    /// `session_a`.
    pub fn share_sessions(&mut self, session_a: &str, session_b: &str)
        ensures
            final(self)@.lists == old(self)@.lists,
            final(self)@.shared == old(self)@.shared.insert(session_a@, session_a@).insert(
                session_b@,
                session_a@,
            ),
    {
        let ghost before = self@;
        set_entry(&mut self.shared_keys, owned(session_a), owned(session_a));
        set_entry(&mut self.shared_keys, owned(session_b), owned(session_a));
        assert(self@.lists =~= before.lists);
        assert(self@.shared =~= before.shared.insert(session_a@, session_a@).insert(session_b@, session_a@));
    }

    /// The key under which the list of a session is stored.
    pub fn get_todo_key(&self, session_id: &str) -> (r: String)
        ensures
            r@ == todo_key(self@.shared, session_id@),
    {
        match get_entry(&self.shared_keys, session_id) {
            Some(k) => owned(k.as_str()),
            None => owned(session_id),
        }
    }

    /// The todo list of a session.
    pub fn get_todos(&self, session_id: &str) -> (r: Vec<TodoItem>)
        ensures
            tvs(r@) == todos_of(self@, session_id@),
    {
        let key = self.get_todo_key(session_id);
        match get_entry(&self.todos, key.as_str()) {
            Some(list) => {
                let mut out: Vec<TodoItem> = Vec::new();
                let mut i: usize = 0;
                while i < list.len()
                    invariant
                        i <= list@.len(),
                        tvs(out@) == tvs(list@).take(i as int),
                    decreases list@.len() - i,
                {
                    let c = list[i].copy();
                    let ghost b = tvs(out@);
                    out.push(c);
                    assert(tvs(out@) =~= b.push(c@));
                    assert(tvs(list@).take(i as int + 1) =~= tvs(list@).take(i as int).push(list@[i as int]@));
                    i = i + 1;
                }
                assert(tvs(list@).take(list@.len() as int) =~= tvs(list@));
                out
            },
            None => {
                let out: Vec<TodoItem> = Vec::new();
                assert(tvs(out@) =~= Seq::<TodoView>::empty());
                out
            },
        }
    }

    /// Replace the todo list of a session (of the sessions sharing it) with
    /// `todos`; gives back the key it was stored under.
    pub fn write_todos(&mut self, session_id: &str, todos: Vec<TodoItem>) -> (r: String)
        ensures
            r@ == todo_key(old(self)@.shared, session_id@),
            final(self)@.shared == old(self)@.shared,
            final(self)@.lists == old(self)@.lists.insert(r@, tvs(todos@)),
    {
        let key = self.get_todo_key(session_id);
        let ghost before = self@;
        let ghost items = tvs(todos@);
        set_entry(&mut self.todos, owned(key.as_str()), todos);
        assert(self@.shared =~= before.shared);
        assert(self@.lists =~= before.lists.insert(key@, items));
        key
    }
}

/// The tool that reads the todo list of a session.
pub struct TodoReadTool;

impl TodoReadTool {
    /// The reading tool.
    pub fn new() -> TodoReadTool {
        TodoReadTool
    }

    /// The tool's name.
    pub fn name(&self) -> (r: &'static str)
        ensures
            r@ == "todoread"@,
    {
        proof {
            reveal_strlit("todoread");
        }
        "todoread"
    }

    /// What the tool is for.
    pub fn description(&self) -> (r: &'static str)
        ensures
            r@ == TODO_READ_DESCRIPTION@,
    {
        TODO_READ_DESCRIPTION
    }

    /// The todo list of a session, as held by `lists`.
    pub fn read(&self, lists: &TodoWriteTool, session_id: &str) -> (r: Vec<TodoItem>)
        ensures
            tvs(r@) == todos_of(lists@, session_id@),
    {
        lists.get_todos(session_id)
    }
}

/// After two sessions are made to share a list, a list written for either
/// replaces the list read for both, and every session whose list is kept
/// under another key reads what it read before.
pub proof fn law_shared_sessions_read_the_same(
    v: TodosView,
    a: Seq<char>,
    b: Seq<char>,
    writer: Seq<char>,
    other: Seq<char>,
    items: Seq<TodoView>,
)
    requires
        writer == a || writer == b,
    ensures
        ({
            let s = TodosView { lists: v.lists, shared: v.shared.insert(a, a).insert(b, a) };
            let w = TodosView { lists: s.lists.insert(todo_key(s.shared, writer), items), shared: s.shared };
            &&& todos_of(w, a) == items
            &&& todos_of(w, b) == items
            &&& todo_key(s.shared, other) != a ==> todos_of(w, other) == todos_of(s, other)
        }),
{
}

/// A list written for a session that shares with no other is read back for
/// it, and the lists of sessions with other keys stay as they were.
pub proof fn law_write_then_read(v: TodosView, id: Seq<char>, other: Seq<char>, items: Seq<TodoView>)
    ensures
        ({
            let w = TodosView { lists: v.lists.insert(todo_key(v.shared, id), items), shared: v.shared };
            &&& todos_of(w, id) == items
            &&& todo_key(v.shared, other) != todo_key(v.shared, id) ==> todos_of(w, other) == todos_of(v, other)
        }),
{
}

/// The session whose todo list is read when the call names none.
pub fn default_session_id() -> (r: String)
    ensures
        r@ == "default"@,
{
    proof {
        reveal_strlit("default");
    }
    owned("default")
}

} // verus!
