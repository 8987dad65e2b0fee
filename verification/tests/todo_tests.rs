use crow_core::todo::{TodoItem, TodoReadTool, TodoStatus, TodoWriteTool};

fn item(content: &str, status: TodoStatus) -> TodoItem {
    TodoItem { content: content.to_string(), status, active_form: format!("Doing {}", content) }
}

#[test]
fn write_then_read_back() {
    let mut tool = TodoWriteTool::new();
    let key = tool.write_todos("s1", vec![item("Task 1", TodoStatus::InProgress)]);
    assert_eq!(key, "s1");
    let todos = tool.get_todos("s1");
    assert_eq!(todos.len(), 1);
    assert_eq!(todos[0].content, "Task 1");
    assert_eq!(todos[0].status, TodoStatus::InProgress);
    assert!(tool.get_todos("other").is_empty());
}

#[test]
fn write_replaces_the_list() {
    let mut tool = TodoWriteTool::new();
    tool.write_todos("s", vec![item("Old 1", TodoStatus::Pending), item("Old 2", TodoStatus::Pending)]);
    tool.write_todos("s", vec![item("New", TodoStatus::Completed)]);
    let todos = tool.get_todos("s");
    assert_eq!(todos.len(), 1);
    assert_eq!(todos[0].content, "New");
    tool.write_todos("s", vec![]);
    assert!(tool.get_todos("s").is_empty());
}

#[test]
fn shared_sessions_see_one_list() {
    let mut tool = TodoWriteTool::new();
    tool.share_sessions("executor", "arbiter");
    assert_eq!(tool.get_todo_key("arbiter"), "executor");
    let key = tool.write_todos("arbiter", vec![item("Shared", TodoStatus::Pending)]);
    assert_eq!(key, "executor");
    assert_eq!(tool.get_todos("executor")[0].content, "Shared");
    let reader = TodoReadTool::new();
    assert_eq!(reader.read(&tool, "arbiter").len(), 1);
    assert_eq!(reader.name(), "todoread");
    assert_eq!(tool.name(), "todowrite");
}

#[test]
fn sessions_are_isolated() {
    let mut tool = TodoWriteTool::new();
    tool.write_todos("a", vec![item("Task A", TodoStatus::Pending)]);
    tool.write_todos("b", vec![item("Task B", TodoStatus::Pending), item("Task C", TodoStatus::Pending)]);
    assert_eq!(tool.get_todos("a").len(), 1);
    assert_eq!(tool.get_todos("b").len(), 2);
    assert_eq!(tool.get_todos("a")[0].content, "Task A");
}

#[test]
fn test_todowrite_replaces_entire_list() {
    let mut tool = TodoWriteTool::new();
    tool.write_todos("replace", vec![item("Old task 1", TodoStatus::Pending), item("Old task 2", TodoStatus::Pending)]);
    tool.write_todos("replace", vec![item("New task", TodoStatus::Pending)]);
    let todos = tool.get_todos("replace");
    assert_eq!(todos.len(), 1);
    assert_eq!(todos[0].content, "New task");
}

#[test]
fn test_todowrite_empty_list_clears_todos() {
    let mut tool = TodoWriteTool::new();
    tool.write_todos("clear", vec![item("Task", TodoStatus::Pending)]);
    tool.write_todos("clear", vec![]);
    assert!(tool.get_todos("clear").is_empty());
}

#[test]
fn test_todowrite_preserves_order() {
    let mut tool = TodoWriteTool::new();
    tool.write_todos(
        "order",
        vec![item("First", TodoStatus::Pending), item("Second", TodoStatus::Pending), item("Third", TodoStatus::Pending)],
    );
    let todos = tool.get_todos("order");
    assert_eq!(todos[0].content, "First");
    assert_eq!(todos[1].content, "Second");
    assert_eq!(todos[2].content, "Third");
}

#[test]
fn test_todo_session_isolation() {
    let mut tool = TodoWriteTool::new();
    tool.write_todos("session-A", vec![item("Task A", TodoStatus::Pending)]);
    tool.write_todos("session-B", vec![item("Task B", TodoStatus::Pending)]);
    let todos_a = tool.get_todos("session-A");
    let todos_b = tool.get_todos("session-B");
    assert_eq!(todos_a.len(), 1);
    assert_eq!(todos_a[0].content, "Task A");
    assert_eq!(todos_b.len(), 1);
    assert_eq!(todos_b[0].content, "Task B");
}

#[test]
fn test_todo_different_sessions_independent() {
    let mut tool = TodoWriteTool::new();
    tool.write_todos(
        "independent-1",
        vec![item("1", TodoStatus::Pending), item("2", TodoStatus::Pending), item("3", TodoStatus::Pending)],
    );
    tool.write_todos("independent-2", vec![item("only", TodoStatus::Pending)]);
    assert_eq!(tool.get_todos("independent-1").len(), 3);
    assert_eq!(tool.get_todos("independent-2").len(), 1);
}

#[test]
fn test_todowrite_tool_name() {
    assert_eq!(TodoWriteTool::new().name(), "todowrite");
}

#[test]
fn test_todowrite_tool_description() {
    let desc = TodoWriteTool::new().description();
    assert!(desc.contains("todo"));
    assert!(desc.contains("CRITICAL"));
}

#[test]
fn test_get_todos_returns_current_state() {
    let mut tool = TodoWriteTool::new();
    tool.write_todos("get-todos-test", vec![item("Check state", TodoStatus::InProgress)]);
    let todos = tool.get_todos("get-todos-test");
    assert_eq!(todos.len(), 1);
    assert_eq!(todos[0].content, "Check state");
    assert_eq!(todos[0].status, TodoStatus::InProgress);
}

#[test]
fn test_get_todos_returns_empty_for_unknown_session() {
    let tool = TodoWriteTool::new();
    assert!(tool.get_todos("unknown-session").is_empty());
}

#[test]
fn test_todoread_returns_empty_when_none() {
    let tool = TodoWriteTool::new();
    assert!(TodoReadTool::new().read(&tool, "empty-session").is_empty());
}

#[test]
fn test_todoread_reflects_updates() {
    let mut tool = TodoWriteTool::new();
    let reader = TodoReadTool::new();
    tool.write_todos("upd", vec![item("Before", TodoStatus::Pending)]);
    assert_eq!(reader.read(&tool, "upd")[0].content, "Before");
    tool.write_todos("upd", vec![item("After", TodoStatus::Completed)]);
    let todos = reader.read(&tool, "upd");
    assert_eq!(todos[0].content, "After");
    assert_eq!(todos[0].status, TodoStatus::Completed);
}

#[test]
fn test_todoread_preserves_activeform() {
    let mut tool = TodoWriteTool::new();
    tool.write_todos(
        "af",
        vec![TodoItem { content: "Run tests".to_string(), status: TodoStatus::InProgress, active_form: "Running tests".to_string() }],
    );
    assert_eq!(TodoReadTool::new().read(&tool, "af")[0].active_form, "Running tests");
}

#[test]
fn test_todoread_tool_name() {
    assert_eq!(TodoReadTool::new().name(), "todoread");
}
