use photo_backup::columns::{sql_dimension, sql_integer, StateColumns};
use photo_backup::photo::DownloadState;

fn blank() -> StateColumns {
    StateColumns {
        local_path: None,
        backup_date: None,
        checksum: None,
        is_downloaded: false,
        download_failed: false,
        failure_reason: None,
    }
}

#[test]
fn unflagged_columns_are_not_attempted() {
    assert_eq!(blank().state(), DownloadState::NotAttempted);
    assert_eq!(DownloadState::NotAttempted.columns(), blank());
}

#[test]
fn downloaded_state_fills_path_checksum_and_date() {
    let state = DownloadState::Downloaded {
        local_path: "/p/a.jpg".to_string(),
        checksum: "0a0b0c0d".to_string(),
        backup_date: "2024-01-01".to_string(),
    };
    let columns = state.columns();
    assert_eq!(
        columns,
        StateColumns {
            local_path: Some("/p/a.jpg".to_string()),
            backup_date: Some("2024-01-01".to_string()),
            checksum: Some("0a0b0c0d".to_string()),
            is_downloaded: true,
            download_failed: false,
            failure_reason: None,
        }
    );
    assert_eq!(columns.state(), state);
    assert_eq!(columns.duplicate(), columns);
}

#[test]
fn failed_state_fills_the_reason() {
    let state = DownloadState::Failed { reason: "timeout".to_string() };
    let columns = state.columns();
    assert!(!columns.is_downloaded);
    assert!(columns.download_failed);
    assert_eq!(columns.failure_reason, Some("timeout".to_string()));
    assert_eq!(columns.local_path, None);
    assert_eq!(columns.state(), state);
}

#[test]
fn downloaded_flag_without_a_path_does_not_count() {
    let mut columns = blank();
    columns.is_downloaded = true;
    assert_eq!(columns.state(), DownloadState::NotAttempted);
    columns.download_failed = true;
    columns.failure_reason = Some("gone".to_string());
    assert_eq!(columns.state(), DownloadState::Failed { reason: "gone".to_string() });
}

#[test]
fn downloaded_row_without_checksum_has_an_empty_one() {
    let mut columns = blank();
    columns.is_downloaded = true;
    columns.local_path = Some("/p/a.jpg".to_string());
    assert_eq!(
        columns.state(),
        DownloadState::Downloaded {
            local_path: "/p/a.jpg".to_string(),
            checksum: String::new(),
            backup_date: String::new(),
        }
    );
}

#[test]
fn failed_row_without_reason_has_an_empty_one() {
    let mut columns = blank();
    columns.download_failed = true;
    assert_eq!(columns.state(), DownloadState::Failed { reason: String::new() });
}

#[test]
fn status_of_an_attempt_is_downloaded_or_failed() {
    let ok = StateColumns::for_status(true, Some("/p/a.jpg".to_string()), None);
    assert!(ok.is_downloaded);
    assert!(!ok.download_failed);
    assert_eq!(ok.local_path, Some("/p/a.jpg".to_string()));
    assert!(matches!(ok.state(), DownloadState::Downloaded { .. }));
    let bad = StateColumns::for_status(false, None, Some("404".to_string()));
    assert!(!bad.is_downloaded);
    assert!(bad.download_failed);
    assert_eq!(bad.state(), DownloadState::Failed { reason: "404".to_string() });
}

#[test]
fn success_without_a_path_counts_as_a_failure() {
    let columns = StateColumns::for_status(true, None, None);
    assert!(!columns.is_downloaded);
    assert!(columns.download_failed);
    assert_eq!(columns.local_path, None);
    assert_eq!(columns.state(), DownloadState::Failed { reason: String::new() });
}

#[test]
fn failure_with_a_path_keeps_the_path_and_stays_a_failure() {
    let columns = StateColumns::for_status(false, Some("/p/a.jpg".to_string()), Some("short read".to_string()));
    assert!(!columns.is_downloaded);
    assert!(columns.download_failed);
    assert_eq!(columns.local_path, Some("/p/a.jpg".to_string()));
    assert_eq!(columns.state(), DownloadState::Failed { reason: "short read".to_string() });
}

#[test]
fn sizes_are_kept_as_they_are() {
    assert_eq!(sql_integer(0), Some(0));
    assert_eq!(sql_integer(1234), Some(1234));
    assert_eq!(sql_integer(i64::MAX as u64), Some(i64::MAX));
}

#[test]
fn size_that_does_not_fit_is_refused() {
    assert_eq!(sql_integer(i64::MAX as u64 + 1), None);
    assert_eq!(sql_integer(u64::MAX), None);
}

#[test]
fn dimensions_are_widened() {
    assert_eq!(sql_dimension(None), None);
    assert_eq!(sql_dimension(Some(0)), Some(0));
    assert_eq!(sql_dimension(Some(u32::MAX)), Some(4294967295));
}
