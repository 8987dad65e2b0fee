use crow_core::store::{MessageWithParts, SessionStore};
use crow_core::types::{CacheTokens, Message, MessagePath, MessageTime, Part, TokenUsage};

fn create(store: &mut SessionStore, dir: &str, parent: Option<String>, title: Option<&str>) -> crow_core::types::Session {
    store.create(dir.to_string(), "proj".to_string(), parent, title.map(|t| t.to_string())).unwrap()
}

fn create_test_message(role: &str, content: &str, n: u32) -> MessageWithParts {
    let msg_id = format!("msg-{}-{}", role, n);
    let part_id = format!("part-{}-{}", role, n);
    let message = if role == "user" {
        Message::User {
            id: msg_id.clone(),
            session_id: "test-session".to_string(),
            time: MessageTime { created: 1, completed: None },
            summary: None,
            metadata: None,
        }
    } else {
        Message::Assistant {
            id: msg_id.clone(),
            session_id: "test-session".to_string(),
            parent_id: "parent-msg".to_string(),
            model_id: "test-model".to_string(),
            provider_id: "test-provider".to_string(),
            mode: "build".to_string(),
            time: MessageTime { created: 1, completed: None },
            path: MessagePath { cwd: "/tmp".to_string(), root: "/tmp".to_string() },
            cost_bits: 0.0f64.to_bits(),
            tokens: TokenUsage { input: 0, output: 0, reasoning: 0, cache: CacheTokens { read: 0, write: 0 } },
            error: None,
            summary: None,
            metadata: None,
        }
    };
    MessageWithParts {
        info: message,
        parts: vec![Part::Text {
            id: part_id,
            session_id: "test-session".to_string(),
            message_id: msg_id,
            text: content.to_string(),
        }],
    }
}

fn wait_ms(ms: u64) {
    let start = std::time::Instant::now();
    while start.elapsed() < std::time::Duration::from_millis(ms) {}
}

#[test]
fn test_session_store_new() {
    let store = SessionStore::new();
    let sessions = store.list(None).unwrap();
    assert!(sessions.is_empty());
}

#[test]
fn test_create_session_basic() {
    let mut store = SessionStore::new();
    let session = create(&mut store, "/tmp/test", None, None);
    assert!(!session.id.is_empty());
    assert_eq!(session.directory, "/tmp/test");
    assert!(session.parent_id.is_none());
    assert!(!session.title.is_empty());
    assert!(session.title.starts_with("New session - "));
}

#[test]
fn test_create_session_with_title() {
    let mut store = SessionStore::new();
    let session = create(&mut store, "/tmp/test", None, Some("My Custom Title"));
    assert_eq!(session.title, "My Custom Title");
}

#[test]
fn test_create_session_with_parent() {
    let mut store = SessionStore::new();
    let parent = create(&mut store, "/tmp/test", None, None);
    let child = create(&mut store, "/tmp/test", Some(parent.id.clone()), None);
    assert_eq!(child.parent_id, Some(parent.id));
}

#[test]
fn test_create_session_generates_unique_ids() {
    let mut store = SessionStore::new();
    let s1 = create(&mut store, "/tmp/test1", None, None);
    let s2 = create(&mut store, "/tmp/test2", None, None);
    assert_ne!(s1.id, s2.id);
}

#[test]
fn test_create_session_sets_timestamps() {
    let mut store = SessionStore::new();
    let session = create(&mut store, "/tmp/test", None, None);
    assert!(session.time.created > 0);
    assert!(session.time.updated > 0);
    assert_eq!(session.time.created, session.time.updated);
}

#[test]
fn test_get_session_exists() {
    let mut store = SessionStore::new();
    let created = create(&mut store, "/tmp/test", None, None);
    let retrieved = store.get(&created.id).unwrap();
    assert_eq!(retrieved.id, created.id);
    assert_eq!(retrieved.directory, created.directory);
}

#[test]
fn test_get_session_not_found() {
    let store = SessionStore::new();
    let result = store.get("nonexistent-id");
    assert!(result.is_err());
    assert!(result.unwrap_err().contains("not found"));
}

#[test]
fn test_list_sessions_empty() {
    let store = SessionStore::new();
    let sessions = store.list(None).unwrap();
    assert!(sessions.is_empty());
}

#[test]
fn test_list_sessions_all() {
    let mut store = SessionStore::new();
    create(&mut store, "/tmp/test1", None, None);
    create(&mut store, "/tmp/test2", None, None);
    let sessions = store.list(None).unwrap();
    assert_eq!(sessions.len(), 2);
}

#[test]
fn test_list_sessions_by_directory() {
    let mut store = SessionStore::new();
    create(&mut store, "/tmp/dir1", None, None);
    create(&mut store, "/tmp/dir2", None, None);
    create(&mut store, "/tmp/dir1", None, None);
    let dir1_sessions = store.list(Some("/tmp/dir1".to_string())).unwrap();
    assert_eq!(dir1_sessions.len(), 2);
    let dir2_sessions = store.list(Some("/tmp/dir2".to_string())).unwrap();
    assert_eq!(dir2_sessions.len(), 1);
}

#[test]
fn test_list_sessions_sorted_by_creation_time() {
    let mut store = SessionStore::new();
    let s1 = create(&mut store, "/tmp/test", None, Some("First"));
    wait_ms(10);
    let s2 = create(&mut store, "/tmp/test", None, Some("Second"));
    let sessions = store.list(None).unwrap();
    assert_eq!(sessions[0].id, s2.id);
    assert_eq!(sessions[1].id, s1.id);
}

#[test]
fn test_update_session_title() {
    let mut store = SessionStore::new();
    let session = create(&mut store, "/tmp/test", None, None);
    let updated = store.update(&session.id, Some("New Title".to_string())).unwrap();
    assert_eq!(updated.title, "New Title");
}

#[test]
fn test_update_session_updates_timestamp() {
    let mut store = SessionStore::new();
    let session = create(&mut store, "/tmp/test", None, None);
    let original_updated = session.time.updated;
    wait_ms(10);
    let updated = store.update(&session.id, Some("New".to_string())).unwrap();
    assert!(updated.time.updated > original_updated);
}

#[test]
fn test_update_session_not_found() {
    let mut store = SessionStore::new();
    let result = store.update("nonexistent", Some("Title".to_string()));
    assert!(result.is_err());
}

#[test]
fn test_update_metadata() {
    let mut store = SessionStore::new();
    let session = create(&mut store, "/tmp/test", None, None);
    let metadata = "{\"count\":42,\"key\":\"value\"}".to_string();
    let updated = store.update_metadata(&session.id, metadata.clone()).unwrap();
    assert_eq!(updated.metadata, Some(metadata));
}

#[test]
fn test_delete_session_exists() {
    let mut store = SessionStore::new();
    let session = create(&mut store, "/tmp/test", None, None);
    let deleted = store.delete(&session.id).unwrap();
    assert!(deleted);
    let result = store.get(&session.id);
    assert!(result.is_err());
}

#[test]
fn test_delete_session_not_found() {
    let mut store = SessionStore::new();
    let deleted = store.delete("nonexistent").unwrap();
    assert!(!deleted);
}

#[test]
fn test_get_children_empty() {
    let mut store = SessionStore::new();
    let parent = create(&mut store, "/tmp/test", None, None);
    let children = store.get_children(&parent.id).unwrap();
    assert!(children.is_empty());
}

#[test]
fn test_get_children_with_children() {
    let mut store = SessionStore::new();
    let parent = create(&mut store, "/tmp/test", None, None);
    create(&mut store, "/tmp/test", Some(parent.id.clone()), None);
    create(&mut store, "/tmp/test", Some(parent.id.clone()), None);
    let children = store.get_children(&parent.id).unwrap();
    assert_eq!(children.len(), 2);
}

#[test]
fn test_add_message() {
    let mut store = SessionStore::new();
    let session = create(&mut store, "/tmp/test", None, None);
    let message = create_test_message("user", "Hello", 1);
    let result = store.add_message(&session.id, message);
    assert!(result.is_ok());
}

#[test]
fn test_add_message_session_not_found() {
    let mut store = SessionStore::new();
    let message = create_test_message("user", "Hello", 1);
    let result = store.add_message("nonexistent", message);
    assert!(result.is_err());
}

#[test]
fn test_get_messages_empty() {
    let mut store = SessionStore::new();
    let session = create(&mut store, "/tmp/test", None, None);
    let messages = store.get_messages(&session.id).unwrap();
    assert!(messages.is_empty());
}

#[test]
fn test_get_messages_with_messages() {
    let mut store = SessionStore::new();
    let session = create(&mut store, "/tmp/test", None, None);
    store.add_message(&session.id, create_test_message("user", "Hello", 1)).unwrap();
    store.add_message(&session.id, create_test_message("assistant", "Hi there", 2)).unwrap();
    let messages = store.get_messages(&session.id).unwrap();
    assert_eq!(messages.len(), 2);
}

#[test]
fn test_get_message_by_id() {
    let mut store = SessionStore::new();
    let session = create(&mut store, "/tmp/test", None, None);
    let msg = create_test_message("user", "Hello", 1);
    let msg_id = msg.info.id().clone();
    store.add_message(&session.id, msg).unwrap();
    let retrieved = store.get_message(&session.id, &msg_id).unwrap();
    match &retrieved.parts[0] {
        Part::Text { text, .. } => assert_eq!(text, "Hello"),
        _ => panic!("Expected Text part"),
    }
}

#[test]
fn test_get_message_not_found() {
    let mut store = SessionStore::new();
    let session = create(&mut store, "/tmp/test", None, None);
    let result = store.get_message(&session.id, "nonexistent-msg-id");
    assert!(result.is_err());
}

#[test]
fn test_messages_are_session_isolated() {
    let mut store = SessionStore::new();
    let s1 = create(&mut store, "/tmp/test1", None, None);
    let s2 = create(&mut store, "/tmp/test2", None, None);
    store.add_message(&s1.id, create_test_message("user", "Message for S1", 1)).unwrap();
    store.add_message(&s2.id, create_test_message("user", "Message for S2", 2)).unwrap();
    let s1_messages = store.get_messages(&s1.id).unwrap();
    let s2_messages = store.get_messages(&s2.id).unwrap();
    assert_eq!(s1_messages.len(), 1);
    assert_eq!(s2_messages.len(), 1);
    match &s1_messages[0].parts[0] {
        Part::Text { text, .. } => assert_eq!(text, "Message for S1"),
        _ => panic!("Expected Text part"),
    }
    match &s2_messages[0].parts[0] {
        Part::Text { text, .. } => assert_eq!(text, "Message for S2"),
        _ => panic!("Expected Text part"),
    }
}
