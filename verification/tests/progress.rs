use photo_backup::asset::RemoteAsset;
use photo_backup::context::AssetContext;
use photo_backup::photo::{DownloadState, IndexedPhoto};
use photo_backup::progress::{ProgressSnapshot, RunStatus};

#[test]
fn progress_starts_idle() {
    let p = ProgressSnapshot::new();
    assert_eq!(p.total, 0);
    assert_eq!(p.downloaded, 0);
    assert_eq!(p.current_file, "");
    assert_eq!(p.status, RunStatus::Idle);
}

#[test]
fn reset_starts_a_run_from_zero() {
    let mut p = ProgressSnapshot::new();
    p.record_completion("old.jpg".to_string());
    p.set_status(RunStatus::Done);
    p.reset(42);
    assert_eq!(p.total, 42);
    assert_eq!(p.downloaded, 0);
    assert_eq!(p.current_file, "");
    assert_eq!(p.status, RunStatus::Starting);
}

#[test]
fn completion_counts_and_remembers_the_item() {
    let mut p = ProgressSnapshot::new();
    p.reset(2);
    p.record_completion("a.jpg".to_string());
    assert_eq!((p.downloaded, p.current_file.as_str()), (1, "a.jpg"));
    p.record_completion("b.jpg".to_string());
    assert_eq!((p.downloaded, p.current_file.as_str()), (2, "b.jpg"));
    assert_eq!(p.total, 2);
    assert_eq!(p.status, RunStatus::Starting);
}

#[test]
fn snapshot_is_a_copy() {
    let mut p = ProgressSnapshot::new();
    p.reset(5);
    p.record_completion("a.jpg".to_string());
    let seen = p.snapshot();
    p.record_completion("b.jpg".to_string());
    assert_eq!(seen.downloaded, 1);
    assert_eq!(seen.current_file, "a.jpg");
    assert_eq!(seen.total, 5);
    assert_eq!(p.downloaded, 2);
}

#[test]
fn status_changes_alone() {
    let mut p = ProgressSnapshot::new();
    p.reset(5);
    p.record_completion("a.jpg".to_string());
    p.set_status(RunStatus::Error);
    assert_eq!(p.status, RunStatus::Error);
    assert_eq!((p.total, p.downloaded), (5, 1));
    assert_eq!(p.current_file, "a.jpg");
}

#[test]
fn status_labels() {
    assert_eq!(RunStatus::Idle.label(), "idle");
    assert_eq!(RunStatus::Starting.label(), "starting");
    assert_eq!(RunStatus::Running.label(), "running");
    assert_eq!(RunStatus::Done.label(), "done");
    assert_eq!(RunStatus::Error.label(), "error");
}

#[test]
fn copies_of_assets_and_rows_are_equal() {
    let asset = RemoteAsset {
        identifier: "a1".to_string(),
        format: "jpg".to_string(),
        version: -3,
        resource_type: "image".to_string(),
        resource_kind: "upload".to_string(),
        created_at: "t".to_string(),
        bytes: 9,
        width: Some(1),
        height: None,
        download_url: "u".to_string(),
        tags: Some(vec!["x".to_string(), "y".to_string()]),
        context: Some(AssetContext::from_pairs(&vec![("k".to_string(), "v".to_string())])),
    };
    assert_eq!(asset.duplicate(), asset);
    assert_eq!(asset.clone(), asset);
    assert_eq!(asset.context_pairs(), Some(&vec![("k".to_string(), "v".to_string())]));
    let row = IndexedPhoto {
        asset,
        state: DownloadState::Downloaded {
            local_path: "p".to_string(),
            checksum: "c".to_string(),
            backup_date: "d".to_string(),
        },
    };
    assert_eq!(row.duplicate(), row);
    assert!(row.state.is_downloaded());
    assert!(!row.state.is_failed());
    assert!(DownloadState::Failed { reason: String::new() }.is_failed());
    assert_eq!(row.state.duplicate(), row.state);
}
