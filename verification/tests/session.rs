use photo_backup::session::{
    session_update_from_json, BackupSession, SessionKind, SessionLog, SessionUpdate,
};

fn begun(account: &str, at: &str) -> BackupSession {
    BackupSession::started(SessionKind::Full, account.to_string(), at.to_string())
}

#[test]
fn started_session_is_open_with_zero_totals() {
    let s = begun("demo", "t0");
    assert_eq!(s.id, None);
    assert_eq!(s.kind, SessionKind::Full);
    assert_eq!(s.account, "demo");
    assert_eq!(s.started_at, "t0");
    assert_eq!(s.completed_at, None);
    assert_eq!((s.total_photos, s.successful_photos, s.failed_photos, s.total_bytes), (0, 0, 0, 0));
    assert_eq!(s.notes, None);
    assert!(s.is_open());
}

#[test]
fn sessions_are_numbered_from_one() {
    let mut log = SessionLog::new();
    assert_eq!(log.len(), 0);
    assert_eq!(log.create_backup_session(begun("a", "t1")), 1);
    assert_eq!(log.create_backup_session(begun("b", "t2")), 2);
    assert_eq!(log.len(), 2);
    assert_eq!(log.get_session(1).unwrap().account, "a");
    assert_eq!(log.get_session(2).unwrap().id, Some(2));
    assert!(log.get_session(0).is_none());
    assert!(log.get_session(3).is_none());
}

#[test]
fn sessions_are_listed_newest_first() {
    let mut log = SessionLog::new();
    log.create_backup_session(begun("a", "t1"));
    log.create_backup_session(begun("b", "t2"));
    log.create_backup_session(begun("c", "t3"));
    let listed: Vec<String> = log.list_sessions().into_iter().map(|s| s.account).collect();
    assert_eq!(listed, vec!["c", "b", "a"]);
    assert!(SessionLog::new().list_sessions().is_empty());
}

fn completion(at: &str) -> SessionUpdate {
    let mut update = SessionUpdate::nothing();
    update.completed_at = Some(at.to_string());
    update
}

#[test]
fn created_session_has_no_completion_time_whatever_was_handed_in() {
    let mut log = SessionLog::new();
    let mut given = begun("a", "t1");
    given.completed_at = Some("t2".to_string());
    given.id = Some(77);
    given.total_photos = 5;
    let id = log.create_backup_session(given);
    let record = log.get_session(id).unwrap();
    assert_eq!(record.completed_at, None);
    assert!(record.is_open());
    assert_eq!(record.id, Some(1));
    assert_eq!(record.total_photos, 5);
    assert_eq!(record.account, "a");
    assert_eq!(log.open_sessions().len(), 1);
}

#[test]
fn update_sets_the_completion_time_of_one_session() {
    let mut log = SessionLog::new();
    log.create_backup_session(begun("a", "t1"));
    log.create_backup_session(begun("b", "t2"));
    let changed = log.update_backup_session(1, completion("t9"));
    assert!(changed);
    assert_eq!(log.get_session(1).unwrap().completed_at, Some("t9".to_string()));
    assert_eq!(log.get_session(1).unwrap().account, "a");
    assert_eq!(log.get_session(1).unwrap().total_photos, 0);
    assert_eq!(log.get_session(2).unwrap().completed_at, None);
}

#[test]
fn update_writes_the_totals_and_the_notes() {
    let mut log = SessionLog::new();
    log.create_backup_session(begun("a", "t1"));
    let update = SessionUpdate {
        completed_at: Some("t9".to_string()),
        total_photos: Some(3),
        successful_photos: Some(2),
        failed_photos: Some(1),
        total_bytes: Some(u64::MAX as u128 + 5),
        notes: Some("one asset was gone".to_string()),
    };
    assert!(log.update_backup_session(1, update));
    let record = log.get_session(1).unwrap();
    assert_eq!(record.completed_at, Some("t9".to_string()));
    assert_eq!((record.total_photos, record.successful_photos, record.failed_photos), (3, 2, 1));
    assert_eq!(record.total_bytes, u64::MAX as u128 + 5);
    assert_eq!(record.notes, Some("one asset was gone".to_string()));
    assert_eq!(record.started_at, "t1");
    assert_eq!(record.kind, SessionKind::Full);
}

#[test]
fn update_leaves_alone_what_it_does_not_set() {
    let mut log = SessionLog::new();
    let mut given = begun("a", "t1");
    given.total_photos = 4;
    given.notes = Some("first".to_string());
    log.create_backup_session(given);
    let mut update = SessionUpdate::nothing();
    update.failed_photos = Some(2);
    assert!(log.update_backup_session(1, update));
    let record = log.get_session(1).unwrap();
    assert_eq!((record.total_photos, record.successful_photos, record.failed_photos), (4, 0, 2));
    assert_eq!(record.notes, Some("first".to_string()));
    assert_eq!(record.completed_at, None);
}

#[test]
fn update_without_a_part_or_a_session_changes_nothing() {
    let mut log = SessionLog::new();
    log.create_backup_session(begun("a", "t1"));
    assert!(!SessionUpdate::nothing().sets_something());
    assert!(completion("t9").sets_something());
    assert!(!log.update_backup_session(1, SessionUpdate::nothing()));
    assert!(!log.update_backup_session(2, completion("t9")));
    assert!(!log.update_backup_session(0, completion("t9")));
    assert_eq!(log.get_session(1).unwrap(), &{
        let mut expected = begun("a", "t1");
        expected.id = Some(1);
        expected
    });
    assert_eq!(log.len(), 1);
}

#[test]
fn open_sessions_are_the_interrupted_runs() {
    let mut log = SessionLog::new();
    log.create_backup_session(begun("a", "t1"));
    log.create_backup_session(begun("b", "t2"));
    log.create_backup_session(begun("c", "t3"));
    log.update_backup_session(2, completion("t9"));
    let open: Vec<u64> = log.open_sessions().into_iter().map(|s| s.id.unwrap()).collect();
    assert_eq!(open, vec![3, 1]);
}

#[test]
fn sealing_update_carries_the_record_of_the_run() {
    let mut ended = begun("a", "t1");
    ended.completed_at = Some("t5".to_string());
    ended.total_photos = 3;
    ended.successful_photos = 3;
    ended.total_bytes = 900;
    assert_eq!(
        SessionUpdate::sealing(&ended),
        SessionUpdate {
            completed_at: Some("t5".to_string()),
            total_photos: Some(3),
            successful_photos: Some(3),
            failed_photos: Some(0),
            total_bytes: Some(900),
            notes: None,
        }
    );
}

#[test]
fn update_is_read_from_a_json_document() {
    let text = "{\"completed_at\":\"2024-01-01T00:00:00Z\",\"total_photos\":3,\"successful_photos\":2,\
                \"failed_photos\":1,\"total_bytes\":18446744073709551615,\"notes\":\"n\",\"x\":1}";
    let value: serde_json::Value = serde_json::from_str(text).unwrap();
    assert_eq!(
        session_update_from_json(&value),
        SessionUpdate {
            completed_at: Some("2024-01-01T00:00:00Z".to_string()),
            total_photos: Some(3),
            successful_photos: Some(2),
            failed_photos: Some(1),
            total_bytes: Some(u64::MAX as u128),
            notes: Some("n".to_string()),
        }
    );
}

#[test]
fn update_from_a_document_without_fitting_members_sets_nothing() {
    for text in [
        "{}",
        "{\"completed_at\":5,\"total_photos\":\"3\"}",
        "{\"completed_at\":null,\"failed_photos\":-1}",
        "{\"successful_photos\":2.5,\"total_bytes\":true}",
        "[\"completed_at\"]",
        "\"completed_at\"",
        "7",
    ] {
        let value: serde_json::Value = serde_json::from_str(text).unwrap();
        assert_eq!(session_update_from_json(&value), SessionUpdate::nothing());
    }
}

#[test]
fn copy_of_a_session_is_equal() {
    let mut s = begun("demo", "t0");
    s.notes = Some("n".to_string());
    s.completed_at = Some("t1".to_string());
    assert_eq!(s.duplicate(), s);
}
