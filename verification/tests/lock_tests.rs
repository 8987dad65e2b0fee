use crow_core::lock::SessionLockManager;

#[test]
fn test_lock_acquire_and_release() {
    let mut manager = SessionLockManager::new();
    let session_id = "test-session";

    let lock = manager.acquire(session_id).unwrap();
    assert!(lock.is_locked());
    assert!(manager.is_locked(session_id));

    assert!(manager.acquire(session_id).is_err());

    manager.release(session_id);
    assert!(!manager.is_locked(session_id));

    assert!(manager.acquire(session_id).is_ok());
}

#[test]
fn test_abort() {
    let mut manager = SessionLockManager::new();
    let session_id = "test-session";

    let lock = manager.acquire(session_id).unwrap();
    assert!(!lock.should_abort());

    manager.abort(session_id).unwrap();
    assert!(manager.get(session_id).unwrap().should_abort());
}

#[test]
fn lock_errors_name_the_session() {
    let mut manager = SessionLockManager::new();
    assert_eq!(manager.abort("s1"), Err("Session s1 is not locked (not running)".to_string()));
    manager.acquire("s1").unwrap();
    assert_eq!(manager.acquire("s1").unwrap_err(), "Session s1 is already locked");
    assert!(manager.get("s2").is_none());
}

#[test]
fn acquired_lock_matches_the_stored_one() {
    let mut manager = SessionLockManager::new();
    let lock = manager.acquire("s9").unwrap();
    let stored = manager.get("s9").unwrap();
    assert_eq!(lock.locked_at, stored.locked_at);
    assert_eq!(lock.session_id, stored.session_id);
}
