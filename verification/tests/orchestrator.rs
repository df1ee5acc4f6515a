use photo_backup::asset::RemoteAsset;
use photo_backup::context::AssetContext;
use photo_backup::error::{BackupError, RetryPolicy};
use photo_backup::index::PhotoIndex;
use photo_backup::orchestrator::{destination_path, Action, BackupRun, Event};
use photo_backup::photo::DownloadState;
use photo_backup::progress::RunStatus;
use photo_backup::run_model::Phase;
use photo_backup::session::{SessionKind, SessionLog, SessionUpdate};
use photo_backup::tags::{ContextTable, TagTable};

fn catalog_entry(id: &str, version: i64) -> RemoteAsset {
    RemoteAsset {
        identifier: id.to_string(),
        format: "jpg".to_string(),
        version,
        resource_type: "image".to_string(),
        resource_kind: "upload".to_string(),
        created_at: "2024-01-01T00:00:00Z".to_string(),
        bytes: 1000,
        width: Some(4),
        height: Some(3),
        download_url: format!("https://cdn.example/{}.jpg", id),
        tags: Some(vec!["holiday".to_string()]),
        context: Some(AssetContext::from_pairs(&vec![("alt".to_string(), id.to_string())])),
    }
}

fn policy() -> RetryPolicy {
    RetryPolicy { max_retries: 2, base_delay_ms: 500, max_delay_ms: 30_000 }
}

fn fresh_run(index: PhotoIndex, tags: TagTable, context: ContextTable) -> BackupRun {
    BackupRun::new(index, tags, context, policy(), "/backup".to_string())
}

fn start() -> Event {
    Event::Start { account: "demo".to_string(), started_at: "2024-03-01T10:00:00Z".to_string() }
}

fn page(assets: Vec<RemoteAsset>, next: Option<&str>) -> Event {
    Event::PageListed { assets, next_token: next.map(|t| t.to_string()) }
}

fn saved(id: &str) -> Event {
    Event::Downloaded {
        local_path: format!("/backup/{}.jpg", id),
        checksum: "0123abcd".to_string(),
        backup_date: "2024-03-01T10:00:05Z".to_string(),
    }
}

fn timed_out() -> Event {
    Event::DownloadFailed { error: BackupError::Transport { detail: "timed out".to_string() } }
}

fn sealed() -> Event {
    Event::Sealed { completed_at: "2024-03-01T10:01:00Z".to_string() }
}

fn download_of(id: &str, position: usize) -> Action {
    Action::Download {
        position,
        identifier: id.to_string(),
        url: format!("https://cdn.example/{}.jpg", id),
        destination: format!("/backup/{}.jpg", id),
    }
}

fn three() -> Vec<RemoteAsset> {
    vec![catalog_entry("a1", 1), catalog_entry("a2", 1), catalog_entry("a3", 1)]
}

/// Lists `assets` on one page and reports every queued download as saved.
fn run_to_the_end(run: &mut BackupRun, assets: Vec<RemoteAsset>) -> usize {
    assert_eq!(run.step(start()), Action::ListPage { token: None, delay_ms: 0 });
    assert_eq!(run.step(page(assets, None)), Action::StorePage);
    let mut action = run.step(Event::PageStored);
    let mut downloads = 0;
    while let Action::Download { identifier, .. } = &action {
        downloads += 1;
        let id = identifier.clone();
        action = run.step(saved(&id));
    }
    assert_eq!(action, Action::Seal);
    assert_eq!(run.step(sealed()), Action::Finished);
    downloads
}

#[test]
fn one_page_of_three_assets_all_downloaded() {
    let mut run = fresh_run(PhotoIndex::new(), TagTable::new(), ContextTable::new());
    assert_eq!(run.phase(), Phase::Idle);
    assert_eq!(run.step(start()), Action::ListPage { token: None, delay_ms: 0 });
    assert_eq!(run.phase(), Phase::Listing);
    assert_eq!(run.progress().status, RunStatus::Starting);
    assert_eq!(run.step(page(three(), None)), Action::StorePage);
    assert_eq!(run.phase(), Phase::Reconciling);
    assert_eq!(run.step(Event::PageStored), download_of("a1", 0));
    assert_eq!(run.phase(), Phase::Downloading);
    assert_eq!(run.queued(), 3);
    assert_eq!(run.progress().total, 3);
    assert_eq!(run.progress().status, RunStatus::Running);
    assert_eq!(run.step(saved("a1")), download_of("a2", 1));
    assert_eq!(run.step(saved("a2")), download_of("a3", 2));
    assert_eq!(run.step(saved("a3")), Action::Seal);
    assert_eq!(run.phase(), Phase::Sealing);
    assert!(run.session().completed_at.is_none());
    assert_eq!(run.step(sealed()), Action::Finished);
    assert_eq!(run.phase(), Phase::Done);

    let session = run.session();
    assert_eq!(
        (session.total_photos, session.successful_photos, session.failed_photos),
        (3, 3, 0)
    );
    assert_eq!(session.total_bytes, 3000);
    assert_eq!(session.kind, SessionKind::Full);
    assert_eq!(session.account, "demo");
    assert_eq!(session.started_at, "2024-03-01T10:00:00Z");
    assert_eq!(session.completed_at, Some("2024-03-01T10:01:00Z".to_string()));
    assert_eq!(session.notes, None);

    let stats = run.index().aggregate_statistics();
    assert_eq!(stats.total_photos, 3);
    assert_eq!(stats.downloaded_photos, 3);
    assert_eq!(stats.failed_photos, 0);
    assert_eq!(stats.download_permyriad, 10000);
    assert_eq!(stats.download_permyriad as f64 / 100.0, 100.0);

    let progress = run.progress();
    assert_eq!(progress.total, 3);
    assert_eq!(progress.downloaded, 3);
    assert_eq!(progress.current_file, "a3");
    assert_eq!(progress.status, RunStatus::Done);
    assert_eq!(progress.status.label(), "done");
}

#[test]
fn second_run_right_after_a_successful_one_downloads_nothing() {
    let mut first = fresh_run(PhotoIndex::new(), TagTable::new(), ContextTable::new());
    assert_eq!(run_to_the_end(&mut first, three()), 3);
    let (index, tags, context) = first.into_tables();

    let mut second = fresh_run(index, tags, context);
    assert_eq!(second.step(start()), Action::ListPage { token: None, delay_ms: 0 });
    assert_eq!(second.step(page(three(), None)), Action::StorePage);
    assert_eq!(second.step(Event::PageStored), Action::Seal);
    assert_eq!(second.queued(), 0);
    assert_eq!(second.step(sealed()), Action::Finished);
    assert_eq!(second.phase(), Phase::Done);
    assert_eq!(second.session().total_photos, 0);
    assert_eq!(second.session().kind, SessionKind::Incremental);
    assert_eq!(second.index().aggregate_statistics().downloaded_photos, 3);
}

#[test]
fn version_advance_between_runs_downloads_only_the_changed_asset() {
    let mut first = fresh_run(PhotoIndex::new(), TagTable::new(), ContextTable::new());
    run_to_the_end(&mut first, three());
    let (index, tags, context) = first.into_tables();

    let mut second = fresh_run(index, tags, context);
    second.step(start());
    let listing = vec![catalog_entry("a1", 1), catalog_entry("a2", 2), catalog_entry("a3", 1)];
    assert_eq!(second.step(page(listing, None)), Action::StorePage);
    assert_eq!(second.step(Event::PageStored), download_of("a2", 1));
    assert_eq!(second.queued(), 1);
    assert_eq!(second.step(saved("a2")), Action::Seal);
    assert_eq!(second.index().row(1).asset.version, 2);
}

#[test]
fn failed_download_does_not_stop_the_next_one() {
    let mut run = fresh_run(PhotoIndex::new(), TagTable::new(), ContextTable::new());
    run.step(start());
    run.step(page(three(), None));
    assert_eq!(run.step(Event::PageStored), download_of("a1", 0));
    assert_eq!(run.step(timed_out()), download_of("a2", 1));
    assert_eq!(run.phase(), Phase::Downloading);
    assert_eq!(run.step(saved("a2")), download_of("a3", 2));
    let rejected = Event::DownloadFailed {
        error: BackupError::RemoteRejected { status: 404, body: "gone".to_string() },
    };
    assert_eq!(run.step(rejected), Action::Seal);
    assert_eq!(run.step(sealed()), Action::Finished);
    assert_eq!(run.phase(), Phase::Done);

    assert_eq!(
        run.index().row(0).state,
        DownloadState::Failed { reason: "Request failed: timed out".to_string() }
    );
    assert!(matches!(run.index().row(1).state, DownloadState::Downloaded { .. }));
    assert_eq!(
        run.index().row(2).state,
        DownloadState::Failed { reason: "Request failed with status: 404 - gone".to_string() }
    );
    let session = run.session();
    assert_eq!(
        (session.total_photos, session.successful_photos, session.failed_photos),
        (3, 1, 2)
    );
    assert_eq!(session.total_bytes, 1000);
    let stats = run.index().aggregate_statistics();
    assert_eq!((stats.downloaded_photos, stats.failed_photos), (1, 2));
    assert_eq!(stats.download_permyriad, 3333);
    assert_eq!(run.progress().downloaded, 3);
    assert_eq!(run.attempted(), 3);
}

#[test]
fn interrupted_run_leaves_its_session_open_and_is_resumed() {
    let mut first = fresh_run(PhotoIndex::new(), TagTable::new(), ContextTable::new());
    first.step(start());
    first.step(page(three(), None));
    first.step(Event::PageStored);
    first.step(saved("a1"));
    // The process dies here.
    assert!(first.session().is_open());
    assert_eq!(first.session().completed_at, None);
    assert_eq!(first.session().total_photos, 1);
    let (index, tags, context) = first.into_tables();

    let mut second = fresh_run(index, tags, context);
    second.step(start());
    second.step(page(three(), None));
    assert_eq!(second.step(Event::PageStored), download_of("a2", 1));
    assert_eq!(second.queued(), 2);
    assert_eq!(second.step(saved("a2")), download_of("a3", 2));
    assert_eq!(second.step(saved("a3")), Action::Seal);
    second.step(sealed());
    assert!(!second.session().is_open());
    assert_eq!(second.index().aggregate_statistics().downloaded_photos, 3);
}

#[test]
fn listing_goes_on_while_there_is_a_token() {
    let mut run = fresh_run(PhotoIndex::new(), TagTable::new(), ContextTable::new());
    run.step(start());
    let first = vec![catalog_entry("a1", 1), catalog_entry("a2", 1)];
    assert_eq!(run.step(page(first, Some("t1"))), Action::StorePage);
    assert_eq!(
        run.step(Event::PageStored),
        Action::ListPage { token: Some("t1".to_string()), delay_ms: 0 }
    );
    assert_eq!(run.phase(), Phase::Listing);
    let second = vec![catalog_entry("a2", 1), catalog_entry("a3", 1)];
    assert_eq!(run.step(page(second, None)), Action::StorePage);
    assert_eq!(run.step(Event::PageStored), download_of("a1", 0));
    assert_eq!(run.queued(), 3);
    assert_eq!(run.index().len(), 3);
}

#[test]
fn failed_page_is_asked_for_again_with_growing_delays() {
    let mut run = fresh_run(PhotoIndex::new(), TagTable::new(), ContextTable::new());
    run.step(start());
    run.step(page(vec![catalog_entry("a1", 1)], Some("t1")));
    run.step(Event::PageStored);
    let busy = || Event::ListingFailed {
        error: BackupError::RemoteRejected { status: 503, body: "busy".to_string() },
    };
    assert_eq!(run.step(busy()), Action::ListPage { token: Some("t1".to_string()), delay_ms: 500 });
    assert_eq!(run.step(busy()), Action::ListPage { token: Some("t1".to_string()), delay_ms: 1000 });
    assert_eq!(run.phase(), Phase::Listing);
    assert_eq!(run.step(busy()), Action::Seal);
    assert_eq!(run.phase(), Phase::Sealing);
    assert_eq!(run.progress().status, RunStatus::Error);
    assert_eq!(run.step(sealed()), Action::Finished);
    assert_eq!(run.phase(), Phase::Failed);
    assert_eq!(
        run.session().notes,
        Some("Request failed with status: 503 - busy".to_string())
    );
    assert_eq!(run.session().completed_at, Some("2024-03-01T10:01:00Z".to_string()));
    assert_eq!(run.progress().status, RunStatus::Error);
    assert_eq!(run.index().len(), 1);
}

#[test]
fn page_that_arrives_resets_the_retry_count() {
    let mut run = fresh_run(PhotoIndex::new(), TagTable::new(), ContextTable::new());
    run.step(start());
    let dropped = || Event::ListingFailed { error: BackupError::Transport { detail: "reset".to_string() } };
    assert_eq!(run.step(dropped()), Action::ListPage { token: None, delay_ms: 500 });
    assert_eq!(run.step(dropped()), Action::ListPage { token: None, delay_ms: 1000 });
    run.step(page(vec![catalog_entry("a1", 1)], Some("t1")));
    run.step(Event::PageStored);
    assert_eq!(run.step(dropped()), Action::ListPage { token: Some("t1".to_string()), delay_ms: 500 });
}

#[test]
fn malformed_page_ends_the_run_at_once() {
    let mut run = fresh_run(PhotoIndex::new(), TagTable::new(), ContextTable::new());
    run.step(start());
    let broken = Event::ListingFailed {
        error: BackupError::MalformedResponse { detail: "missing field".to_string() },
    };
    assert_eq!(run.step(broken), Action::Seal);
    run.step(sealed());
    assert_eq!(run.phase(), Phase::Failed);
    assert_eq!(run.session().notes, Some("Failed to parse response: missing field".to_string()));
}

#[test]
fn client_error_on_a_page_is_not_retried() {
    let mut run = fresh_run(PhotoIndex::new(), TagTable::new(), ContextTable::new());
    run.step(start());
    let denied = Event::ListingFailed {
        error: BackupError::RemoteRejected { status: 401, body: "no".to_string() },
    };
    assert_eq!(run.step(denied), Action::Seal);
}

#[test]
fn store_failure_ends_the_run_and_keeps_what_was_done() {
    let mut run = fresh_run(PhotoIndex::new(), TagTable::new(), ContextTable::new());
    run.step(start());
    run.step(page(three(), None));
    run.step(Event::PageStored);
    run.step(saved("a1"));
    assert_eq!(run.step(Event::StoreFailed { detail: "disk I/O error".to_string() }), Action::Seal);
    assert_eq!(run.phase(), Phase::Sealing);
    assert_eq!(run.step(sealed()), Action::Finished);
    assert_eq!(run.phase(), Phase::Failed);
    assert_eq!(run.session().notes, Some("disk I/O error".to_string()));
    assert_eq!(run.session().successful_photos, 1);
    assert!(matches!(run.index().row(0).state, DownloadState::Downloaded { .. }));
    assert_eq!(run.index().row(1).state, DownloadState::NotAttempted);
}

#[test]
fn store_error_reported_by_a_download_ends_the_run() {
    let mut run = fresh_run(PhotoIndex::new(), TagTable::new(), ContextTable::new());
    run.step(start());
    run.step(page(three(), None));
    run.step(Event::PageStored);
    let broken = Event::DownloadFailed { error: BackupError::Store { detail: "locked".to_string() } };
    assert_eq!(run.step(broken), Action::Seal);
    assert_eq!(run.attempted(), 0);
    run.step(sealed());
    assert_eq!(run.phase(), Phase::Failed);
    assert_eq!(run.session().notes, Some("Index store failed: locked".to_string()));
}

#[test]
fn filesystem_error_fails_the_asset_and_not_the_run() {
    let mut run = fresh_run(PhotoIndex::new(), TagTable::new(), ContextTable::new());
    run.step(start());
    run.step(page(vec![catalog_entry("a1", 1), catalog_entry("a2", 1)], None));
    run.step(Event::PageStored);
    let full = Event::DownloadFailed { error: BackupError::Filesystem { detail: "disk full".to_string() } };
    assert_eq!(run.step(full), download_of("a2", 1));
    assert_eq!(
        run.index().row(0).state,
        DownloadState::Failed { reason: "Failed to write file: disk full".to_string() }
    );
}

#[test]
fn event_that_does_not_fit_the_phase_is_ignored() {
    let mut run = fresh_run(PhotoIndex::new(), TagTable::new(), ContextTable::new());
    assert_eq!(run.step(saved("a1")), Action::Ignored);
    assert_eq!(run.step(Event::PageStored), Action::Ignored);
    assert_eq!(run.step(sealed()), Action::Ignored);
    assert_eq!(run.phase(), Phase::Idle);
    run.step(start());
    assert_eq!(run.step(start()), Action::Ignored);
    assert_eq!(run.phase(), Phase::Listing);
    run.step(page(Vec::new(), None));
    run.step(Event::PageStored);
    run.step(sealed());
    assert_eq!(run.phase(), Phase::Done);
    assert_eq!(run.step(start()), Action::Ignored);
    assert_eq!(run.step(Event::StoreFailed { detail: "late".to_string() }), Action::Ignored);
    assert_eq!(run.phase(), Phase::Done);
}

#[test]
fn empty_catalog_is_sealed_without_downloads() {
    let mut run = fresh_run(PhotoIndex::new(), TagTable::new(), ContextTable::new());
    run.step(start());
    assert_eq!(run.step(page(Vec::new(), None)), Action::StorePage);
    assert_eq!(run.step(Event::PageStored), Action::Seal);
    assert_eq!(run.progress().total, 0);
    assert_eq!(run.step(sealed()), Action::Finished);
    assert_eq!(run.session().total_photos, 0);
    assert_eq!(run.progress().status, RunStatus::Done);
}

#[test]
fn successful_download_attaches_tags_and_context() {
    let mut run = fresh_run(PhotoIndex::new(), TagTable::new(), ContextTable::new());
    run.step(start());
    run.step(page(vec![catalog_entry("a1", 1), catalog_entry("a2", 1)], None));
    run.step(Event::PageStored);
    run.step(saved("a1"));
    run.step(timed_out());
    assert!(run.tags().has_tag(0, &"holiday".to_string()));
    assert!(!run.tags().has_tag(1, &"holiday".to_string()));
    assert_eq!(run.tags().tag_count(), 1);
    assert_eq!(run.tags().link_count(), 1);
    assert_eq!(run.context().len(), 1);
}

#[test]
fn destination_is_identifier_and_format_below_the_target() {
    let asset = catalog_entry("folder/pic", 1);
    assert_eq!(destination_path(&"/data".to_string(), &asset), "/data/folder/pic.jpg");
}

#[test]
fn session_opened_at_the_start_is_sealed_with_the_totals_of_the_run() {
    let mut log = SessionLog::new();
    let mut run = fresh_run(PhotoIndex::new(), TagTable::new(), ContextTable::new());
    run.step(start());
    let id = log.create_backup_session(run.session().clone());
    assert!(log.get_session(id).unwrap().is_open());
    run.step(page(three(), None));
    run.step(Event::PageStored);
    run.step(saved("a1"));
    run.step(saved("a2"));
    run.step(saved("a3"));
    assert!(log.get_session(id).unwrap().is_open());
    run.step(sealed());
    assert!(log.update_backup_session(id, SessionUpdate::sealing(run.session())));
    let record = log.get_session(id).unwrap();
    assert_eq!(record.completed_at, Some("2024-03-01T10:01:00Z".to_string()));
    assert_eq!((record.total_photos, record.successful_photos, record.failed_photos), (3, 3, 0));
    assert_eq!(record.total_bytes, 3000);
    assert_eq!(record.notes, None);
    assert_eq!(record.account, "demo");
    assert_eq!(record.started_at, "2024-03-01T10:00:00Z");
    assert_eq!(record.id, Some(id));
}

#[test]
fn session_of_a_run_that_was_given_up_is_sealed_with_its_notes() {
    let mut log = SessionLog::new();
    let mut run = fresh_run(PhotoIndex::new(), TagTable::new(), ContextTable::new());
    run.step(start());
    let id = log.create_backup_session(run.session().clone());
    run.step(page(three(), None));
    run.step(Event::PageStored);
    run.step(saved("a1"));
    run.step(timed_out());
    run.step(Event::StoreFailed { detail: "disk I/O error".to_string() });
    run.step(sealed());
    log.update_backup_session(id, SessionUpdate::sealing(run.session()));
    let record = log.get_session(id).unwrap();
    assert!(!record.is_open());
    assert_eq!((record.total_photos, record.successful_photos, record.failed_photos), (2, 1, 1));
    assert_eq!(record.total_bytes, 1000);
    assert_eq!(record.notes, Some("disk I/O error".to_string()));
}

#[test]
fn second_run_over_the_same_two_pages_downloads_nothing() {
    let first_page = || vec![catalog_entry("a1", 1), catalog_entry("a2", 1)];
    let second_page = || vec![catalog_entry("a2", 1), catalog_entry("a3", 1)];
    let mut first = fresh_run(PhotoIndex::new(), TagTable::new(), ContextTable::new());
    first.step(start());
    first.step(page(first_page(), Some("t1")));
    first.step(Event::PageStored);
    first.step(page(second_page(), None));
    assert_eq!(first.step(Event::PageStored), download_of("a1", 0));
    assert_eq!(first.queued(), 3);
    first.step(saved("a1"));
    first.step(saved("a2"));
    assert_eq!(first.step(saved("a3")), Action::Seal);
    first.step(sealed());
    let (index, tags, context) = first.into_tables();

    let mut second = fresh_run(index, tags, context);
    second.step(start());
    second.step(page(first_page(), Some("t1")));
    second.step(Event::PageStored);
    second.step(page(second_page(), None));
    assert_eq!(second.step(Event::PageStored), Action::Seal);
    assert_eq!(second.queued(), 0);
    assert_eq!(second.index().len(), 3);
}

#[test]
fn resumed_run_over_two_pages_downloads_each_missing_asset_once() {
    let mut first = fresh_run(PhotoIndex::new(), TagTable::new(), ContextTable::new());
    first.step(start());
    first.step(page(three(), None));
    first.step(Event::PageStored);
    first.step(saved("a1"));
    first.step(timed_out());
    // The process dies here: a1 is on disk, a2 has failed, a3 was never attempted.
    let (index, tags, context) = first.into_tables();
    let on_disk = index.row(0).clone();

    let mut second = fresh_run(index, tags, context);
    second.step(start());
    second.step(page(vec![catalog_entry("a1", 1), catalog_entry("a2", 1)], Some("t1")));
    second.step(Event::PageStored);
    second.step(page(vec![catalog_entry("a2", 1), catalog_entry("a3", 1), catalog_entry("a1", 1)], None));
    assert_eq!(second.step(Event::PageStored), download_of("a2", 1));
    assert_eq!(second.queued(), 2);
    assert_eq!(second.index().row(0), &on_disk);
    assert_eq!(second.step(saved("a2")), download_of("a3", 2));
    assert_eq!(second.step(saved("a3")), Action::Seal);
}

#[test]
fn asset_listed_at_two_versions_is_downloaded_again() {
    let mut first = fresh_run(PhotoIndex::new(), TagTable::new(), ContextTable::new());
    run_to_the_end(&mut first, vec![catalog_entry("a1", 1)]);
    let (index, tags, context) = first.into_tables();
    let mut second = fresh_run(index, tags, context);
    second.step(start());
    second.step(page(vec![catalog_entry("a1", 1), catalog_entry("a1", 2)], None));
    assert_eq!(second.step(Event::PageStored), download_of("a1", 0));
    assert_eq!(second.queued(), 1);
    assert_eq!(second.index().row(0).asset.version, 2);
}
