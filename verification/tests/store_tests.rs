use crow_core::store::{default_session_title, millis_from_clock, MessageWithParts, SessionStore};
use crow_core::types::{Message, MessageTime, Part};

fn user_message(id: &str, session_id: &str, text: &str) -> MessageWithParts {
    MessageWithParts {
        info: Message::User {
            id: id.to_string(),
            session_id: session_id.to_string(),
            time: MessageTime { created: 1, completed: None },
            summary: None,
            metadata: None,
        },
        parts: vec![Part::Text {
            id: format!("part-{}", id),
            session_id: session_id.to_string(),
            message_id: id.to_string(),
            text: text.to_string(),
        }],
    }
}

#[test]
fn new_store_is_empty() {
    let store = SessionStore::new();
    assert!(store.list(None).unwrap().is_empty());
}

#[test]
fn create_then_get() {
    let mut store = SessionStore::new();
    let s = store.create_at("ses1".to_string(), "proj".to_string(), "/tmp/test".to_string(), None, "Title".to_string(), 100);
    assert_eq!(s.id, "ses1");
    assert_eq!(s.version, "1.0.0");
    assert_eq!(s.time.created, 100);
    assert_eq!(s.time.updated, 100);
    let got = store.get("ses1").unwrap();
    assert_eq!(got, s);
    assert_eq!(store.get("nope").unwrap_err(), "Session not found: nope");
}

#[test]
fn list_filters_by_directory_and_sorts_newest_first() {
    let mut store = SessionStore::new();
    store.create_at("a".to_string(), "p".to_string(), "/d1".to_string(), None, "A".to_string(), 10);
    store.create_at("b".to_string(), "p".to_string(), "/d2".to_string(), None, "B".to_string(), 30);
    store.create_at("c".to_string(), "p".to_string(), "/d1".to_string(), None, "C".to_string(), 20);
    let all: Vec<String> = store.list(None).unwrap().into_iter().map(|s| s.id).collect();
    assert_eq!(all, vec!["b", "c", "a"]);
    let d1: Vec<String> = store.list(Some("/d1".to_string())).unwrap().into_iter().map(|s| s.id).collect();
    assert_eq!(d1, vec!["c", "a"]);
}

#[test]
fn sessions_created_at_the_same_time_keep_their_order() {
    let mut store = SessionStore::new();
    store.create_at("x".to_string(), "p".to_string(), "/d".to_string(), None, "X".to_string(), 5);
    store.create_at("y".to_string(), "p".to_string(), "/d".to_string(), None, "Y".to_string(), 5);
    let ids: Vec<String> = store.list(None).unwrap().into_iter().map(|s| s.id).collect();
    assert_eq!(ids, vec!["x", "y"]);
}

#[test]
fn update_sets_title_and_time() {
    let mut store = SessionStore::new();
    store.create_at("s".to_string(), "p".to_string(), "/d".to_string(), None, "Old".to_string(), 10);
    let u = store.update_at("s", Some("New Title".to_string()), 50).unwrap();
    assert_eq!(u.title, "New Title");
    assert_eq!(u.time.updated, 50);
    assert_eq!(u.time.created, 10);
    let kept = store.update_at("s", None, 60).unwrap();
    assert_eq!(kept.title, "New Title");
    assert!(store.update_at("missing", None, 1).is_err());
    let live = store.update("s", None).unwrap();
    assert!(live.time.updated > 60);
}

#[test]
fn update_metadata_records_json_text() {
    let mut store = SessionStore::new();
    store.create_at("s".to_string(), "p".to_string(), "/d".to_string(), None, "T".to_string(), 10);
    let u = store.update_metadata_at("s", "{\"key\":\"value\"}".to_string(), 11).unwrap();
    assert_eq!(u.metadata, Some("{\"key\":\"value\"}".to_string()));
    assert_eq!(store.get("s").unwrap().metadata, Some("{\"key\":\"value\"}".to_string()));
}

#[test]
fn delete_removes_session_only() {
    let mut store = SessionStore::new();
    store.create_at("s".to_string(), "p".to_string(), "/d".to_string(), None, "T".to_string(), 10);
    assert_eq!(store.delete("s"), Ok(true));
    assert!(store.get("s").is_err());
    assert_eq!(store.delete("s"), Ok(false));
}

#[test]
fn children_are_listed_newest_first() {
    let mut store = SessionStore::new();
    store.create_at("parent".to_string(), "p".to_string(), "/d".to_string(), None, "P".to_string(), 1);
    store.create_at("c1".to_string(), "p".to_string(), "/d".to_string(), Some("parent".to_string()), "C1".to_string(), 2);
    store.create_at("c2".to_string(), "p".to_string(), "/d".to_string(), Some("parent".to_string()), "C2".to_string(), 3);
    let ids: Vec<String> = store.get_children("parent").unwrap().into_iter().map(|s| s.id).collect();
    assert_eq!(ids, vec!["c2", "c1"]);
    assert!(store.get_children("c1").unwrap().is_empty());
}

#[test]
fn messages_are_kept_per_session() {
    let mut store = SessionStore::new();
    store.create_at("s1".to_string(), "p".to_string(), "/d".to_string(), None, "T".to_string(), 1);
    store.create_at("s2".to_string(), "p".to_string(), "/d".to_string(), None, "T".to_string(), 1);
    assert!(store.get_messages("s1").unwrap().is_empty());
    store.add_message_at("s1", user_message("m1", "s1", "Message for S1"), 5).unwrap();
    store.add_message_at("s2", user_message("m2", "s2", "Message for S2"), 6).unwrap();
    store.add_message_at("s1", user_message("m3", "s1", "Second"), 7).unwrap();
    assert_eq!(store.get_messages("s1").unwrap().len(), 2);
    assert_eq!(store.get_messages("s2").unwrap().len(), 1);
    assert_eq!(store.get("s1").unwrap().time.updated, 7);
    let m = store.get_message("s1", "m3").unwrap();
    match &m.parts[0] {
        Part::Text { text, .. } => assert_eq!(text, "Second"),
        _ => panic!("Expected Text part"),
    }
    assert_eq!(store.get_message("s1", "m2").unwrap_err(), "Message not found: m2");
    assert_eq!(store.add_message_at("none", user_message("m", "none", "x"), 1).unwrap_err(), "Session not found: none");
}

#[test]
fn deleted_session_hides_its_messages() {
    let mut store = SessionStore::new();
    store.create_at("s".to_string(), "p".to_string(), "/d".to_string(), None, "T".to_string(), 1);
    store.add_message("s", user_message("m", "s", "hi")).unwrap();
    store.delete("s").unwrap();
    assert!(store.get_messages("s").is_err());
}

#[test]
fn default_title_has_the_stamp() {
    assert_eq!(default_session_title("2024-01-01T00:00:00.000Z"), "New session - 2024-01-01T00:00:00.000Z");
}

#[test]
fn restore_takes_in_a_stored_session_with_its_messages() {
    let mut store = SessionStore::new();
    let mut s = store.create_at("ses1".to_string(), "proj".to_string(), "/d".to_string(), None, "Old".to_string(), 5);
    store.add_message_at("ses1", user_message("m0", "ses1", "gone"), 6).unwrap();
    s.title = "From disk".to_string();
    s.time.created = 42;
    store.restore(s.clone(), vec![user_message("m1", "ses1", "hello")]);
    assert_eq!(store.get("ses1").unwrap(), s);
    let ms = store.get_messages("ses1").unwrap();
    assert_eq!(ms.len(), 1);
    assert_eq!(ms[0].info.id(), "m1");
    assert_eq!(store.list(None).unwrap().len(), 1);

    let mut other = s.clone();
    other.id = "ses2".to_string();
    store.restore(other, Vec::new());
    assert_eq!(store.list(None).unwrap().len(), 2);
    assert!(store.get_messages("ses2").unwrap().is_empty());
}

#[test]
fn clock_readings_give_milliseconds_or_the_time_error() {
    assert_eq!(millis_from_clock(Ok(1_700_000_000_123)), Ok(1_700_000_000_123));
    assert_eq!(
        millis_from_clock(Err(5)),
        Err("Time error: second time provided was later than self".to_string())
    );
}

#[test]
fn title_stamp_writes_the_utc_time() {
    assert_eq!(crow_core::store::title_stamp(0), "1970-01-01T00:00:00.000Z");
    assert_eq!(crow_core::store::title_stamp(1_700_000_000_123), "2023-11-14T22:13:20.123Z");
}
