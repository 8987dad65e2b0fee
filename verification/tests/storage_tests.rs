use crow_core::storage::{CrowLogger, CrowStorage};

#[test]
fn test_storage_paths() {
    let storage = CrowStorage::new().unwrap();
    assert!(storage.root().contains("crow"));
    assert!(storage.root().contains("storage"));
}

#[test]
fn storage_file_paths() {
    let s = CrowStorage::with_root("/data/crow/storage".to_string());
    assert!(s.init_sync().is_ok());
    assert_eq!(s.session_path("p1", "ses1"), "/data/crow/storage/session/p1/ses1.json");
    assert_eq!(s.message_path("ses1", "m1"), "/data/crow/storage/message/ses1/m1.json");
    assert_eq!(s.part_path("m1", "pt1"), "/data/crow/storage/part/m1/pt1.json");
}

#[test]
fn logger_reads_last_lines() {
    let l = CrowLogger::with_dir("/state/crow/logs".to_string());
    assert_eq!(l.log_dir(), "/state/crow/logs");
    assert_eq!(l.log_path("agent.log"), "/state/crow/logs/agent.log");
    assert_eq!(l.read_agent_log(Some("a\nb\nc\n"), 2), vec!["b".to_string(), "c".to_string()]);
    assert_eq!(l.read_agent_log(Some("a\nb"), 5), vec!["a".to_string(), "b".to_string()]);
    assert!(l.read_agent_log(None, 5).is_empty());
}
