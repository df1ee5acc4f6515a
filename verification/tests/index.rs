use photo_backup::asset::RemoteAsset;
use photo_backup::index::PhotoIndex;
use photo_backup::photo::{DownloadState, IndexedPhoto};

fn index_asset(id: &str, version: i64, bytes: u64) -> RemoteAsset {
    RemoteAsset {
        identifier: id.to_string(),
        format: "jpg".to_string(),
        version,
        resource_type: "image".to_string(),
        resource_kind: "upload".to_string(),
        created_at: "2024-01-01T00:00:00Z".to_string(),
        bytes,
        width: Some(800),
        height: Some(600),
        download_url: format!("https://cdn.example/{}.jpg", id),
        tags: None,
        context: None,
    }
}

fn on_disk(path: &str) -> DownloadState {
    DownloadState::Downloaded {
        local_path: path.to_string(),
        checksum: "00000001".to_string(),
        backup_date: "2024-02-02T00:00:00Z".to_string(),
    }
}

#[test]
fn new_index_is_empty() {
    let index = PhotoIndex::new();
    assert_eq!(index.len(), 0);
    assert_eq!(index.find(&"a1".to_string()), None);
    assert!(index.get_photo(&"a1".to_string()).is_none());
}

#[test]
fn upsert_inserts_then_overwrites_in_place() {
    let mut index = PhotoIndex::new();
    let first = index.upsert_photo(IndexedPhoto::pending(index_asset("a1", 1, 10)));
    let second = index.upsert_photo(IndexedPhoto::pending(index_asset("a2", 1, 20)));
    assert_eq!((first, second), (0, 1));
    let again = index.upsert_photo(IndexedPhoto {
        asset: index_asset("a1", 2, 11),
        state: on_disk("/p/a1.jpg"),
    });
    assert_eq!(again, 0);
    assert_eq!(index.len(), 2);
    let row = index.get_photo(&"a1".to_string()).unwrap();
    assert_eq!(row.asset.version, 2);
    assert_eq!(row.asset.bytes, 11);
    assert_eq!(row.state, on_disk("/p/a1.jpg"));
    assert_eq!(index.row(1).asset.identifier, "a2");
}

#[test]
fn batch_with_a_repeated_identifier_keeps_one_row() {
    let mut index = PhotoIndex::new();
    let batch = vec![
        IndexedPhoto::pending(index_asset("a1", 1, 10)),
        IndexedPhoto::pending(index_asset("a2", 1, 20)),
        IndexedPhoto::pending(index_asset("a1", 3, 30)),
    ];
    index.upsert_photo_batch(&batch);
    assert_eq!(index.len(), 2);
    assert_eq!(index.find(&"a1".to_string()), Some(0));
    assert_eq!(index.find(&"a2".to_string()), Some(1));
    assert_eq!(index.row(0).asset.version, 3);
}

#[test]
fn outcome_is_written_to_the_row_with_the_identifier() {
    let mut index = PhotoIndex::new();
    index.upsert_photo(IndexedPhoto::pending(index_asset("a1", 1, 10)));
    index.upsert_photo(IndexedPhoto::pending(index_asset("a2", 1, 20)));
    let found = index.update_download_outcome(&"a2".to_string(), on_disk("/p/a2.jpg"));
    assert!(found);
    assert_eq!(index.row(0).state, DownloadState::NotAttempted);
    assert_eq!(index.row(1).state, on_disk("/p/a2.jpg"));
    assert_eq!(index.row(1).asset, index_asset("a2", 1, 20));
}

#[test]
fn outcome_for_an_unknown_identifier_changes_nothing() {
    let mut index = PhotoIndex::new();
    index.upsert_photo(IndexedPhoto::pending(index_asset("a1", 1, 10)));
    let found = index.update_download_outcome(
        &"zz".to_string(),
        DownloadState::Failed { reason: "x".to_string() },
    );
    assert!(!found);
    assert_eq!(index.len(), 1);
    assert_eq!(index.row(0).state, DownloadState::NotAttempted);
}

#[test]
fn statistics_of_an_empty_index_are_zero() {
    let stats = PhotoIndex::new().aggregate_statistics();
    assert_eq!(stats.total_photos, 0);
    assert_eq!(stats.downloaded_photos, 0);
    assert_eq!(stats.failed_photos, 0);
    assert_eq!(stats.total_bytes, 0);
    assert_eq!(stats.downloaded_bytes, 0);
    assert_eq!(stats.download_permyriad, 0);
}

#[test]
fn statistics_count_two_downloaded_and_one_failed() {
    let mut index = PhotoIndex::new();
    index.upsert_photo(IndexedPhoto::pending(index_asset("a1", 1, 100)));
    index.upsert_photo(IndexedPhoto::pending(index_asset("a2", 1, 250)));
    index.upsert_photo(IndexedPhoto::pending(index_asset("a3", 1, 4000)));
    index.update_download_outcome(&"a1".to_string(), on_disk("/p/a1.jpg"));
    index.update_download_outcome(&"a3".to_string(), on_disk("/p/a3.jpg"));
    index.update_download_outcome(
        &"a2".to_string(),
        DownloadState::Failed { reason: "timeout".to_string() },
    );
    let stats = index.aggregate_statistics();
    assert_eq!(stats.total_photos, 3);
    assert_eq!(stats.downloaded_photos, 2);
    assert_eq!(stats.failed_photos, 1);
    assert_eq!(stats.total_bytes, 4350);
    assert_eq!(stats.downloaded_bytes, 4100);
    assert_eq!(stats.download_permyriad, 6666);
    let percentage = stats.download_permyriad as f64 / 100.0;
    assert!((percentage - 2.0 / 3.0 * 100.0).abs() < 0.01);
}

#[test]
fn statistics_add_sizes_beyond_sixty_four_bits() {
    let mut index = PhotoIndex::new();
    index.upsert_photo(IndexedPhoto::pending(index_asset("a1", 1, u64::MAX)));
    index.upsert_photo(IndexedPhoto::pending(index_asset("a2", 1, u64::MAX)));
    let stats = index.aggregate_statistics();
    assert_eq!(stats.total_bytes, 2 * (u64::MAX as u128));
}

#[test]
fn downloaded_row_without_a_file_is_flagged_failed() {
    let mut index = PhotoIndex::new();
    index.upsert_photo(IndexedPhoto { asset: index_asset("a1", 1, 10), state: on_disk("/p/a1.jpg") });
    index.upsert_photo(IndexedPhoto { asset: index_asset("a2", 1, 10), state: on_disk("/p/a2.jpg") });
    index.upsert_photo(IndexedPhoto { asset: index_asset("a3", 1, 10), state: on_disk("/p/a3.jpg") });
    assert!(index.reflag_missing_file(&"a1".to_string(), None));
    assert!(index.reflag_missing_file(&"a2".to_string(), Some(0)));
    assert!(!index.reflag_missing_file(&"a3".to_string(), Some(10)));
    assert!(!index.reflag_missing_file(&"zz".to_string(), None));
    let missing = DownloadState::Failed { reason: "Local file is missing or empty".to_string() };
    assert_eq!(index.row(0).state, missing);
    assert_eq!(index.row(1).state, missing);
    assert_eq!(index.row(2).state, on_disk("/p/a3.jpg"));
}

#[test]
fn row_that_is_not_downloaded_is_never_flagged() {
    let mut index = PhotoIndex::new();
    index.upsert_photo(IndexedPhoto::pending(index_asset("a1", 1, 10)));
    assert!(!index.reflag_missing_file(&"a1".to_string(), None));
    assert_eq!(index.row(0).state, DownloadState::NotAttempted);
}
