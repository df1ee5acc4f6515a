//! The orchestrator: it takes one event at a time from the code that talks
//! to the network, the disk and the store, and answers with the next thing to do.

use vstd::prelude::*;
use crate::asset::RemoteAsset;
use crate::error::{BackupError, RetryPolicy};
use crate::index::PhotoIndex;
use crate::photo::DownloadState;
use crate::progress::{ProgressSnapshot, RunStatus};
use crate::reconcile::{page_view, reconcile_page, work_fits};
use crate::rows::{row_of_is_unique, with_state};
use crate::run_model::{
    context_of, destination_of, next_keeps_valid, ActionView, EventView, Phase, RunView,
};
use crate::tags::{context_entries, ContextTable, TagTable};
use crate::session::{BackupSession, SessionKind};
use crate::text::copy_opt_text;

verus! {

/// What the outside world reports to a run.
#[derive(Clone, Debug, PartialEq, Eq)]
pub enum Event {
    /// A run is to begin for `account`, at the time `started_at`.
    Start { account: String, started_at: String },
    /// The catalog answered with a page.
    PageListed { assets: Vec<RemoteAsset>, next_token: Option<String> },
    /// The catalog could not be read.
    ListingFailed { error: BackupError },
    /// The store has written the rows of the page reconciled last.
    PageStored,
    /// The download asked for is on disk.
    Downloaded { local_path: String, checksum: String, backup_date: String },
    /// The download asked for failed.
    DownloadFailed { error: BackupError },
    /// The store could not be written or read.
    StoreFailed { detail: String },
    /// The clock was read for the end of the run.
    Sealed { completed_at: String },
}

impl View for Event {
    type V = EventView;

    open spec fn view(&self) -> EventView {
        match self {
            Event::Start { account, started_at } => EventView::Start {
                account: account@,
                started_at: started_at@,
            },
            Event::PageListed { assets, next_token } => EventView::PageListed {
                assets: page_view(assets@),
                next_token: next_token.deep_view(),
            },
            Event::ListingFailed { error } => EventView::ListingFailed { error: error@ },
            Event::PageStored => EventView::PageStored,
            Event::Downloaded { local_path, checksum, backup_date } => EventView::Downloaded {
                local_path: local_path@,
                checksum: checksum@,
                backup_date: backup_date@,
            },
            Event::DownloadFailed { error } => EventView::DownloadFailed { error: error@ },
            Event::StoreFailed { detail } => EventView::StoreFailed { detail: detail@ },
            Event::Sealed { completed_at } => EventView::Sealed { completed_at: completed_at@ },
        }
    }
}

/// What a run asks the outside world to do next.
#[derive(Clone, Debug, PartialEq, Eq)]
pub enum Action {
    /// Wait `delay_ms` milliseconds, then ask the catalog for the page at `token`.
    ListPage { token: Option<String>, delay_ms: u64 },
    /// Write the rows of the page just reconciled to the store.
    StorePage,
    /// Fetch `url` into the file `destination`.
    Download { position: usize, identifier: String, url: String, destination: String },
    /// Read the clock for the end of the run.
    Seal,
    /// Nothing: the run is over.
    Finished,
    /// Nothing: the event did not fit the phase and changed nothing.
    Ignored,
}

impl View for Action {
    type V = ActionView;

    open spec fn view(&self) -> ActionView {
        match self {
            Action::ListPage { token, delay_ms } => ActionView::ListPage {
                token: token.deep_view(),
                delay_ms: *delay_ms,
            },
            Action::StorePage => ActionView::StorePage,
            Action::Download { position, identifier, url, destination } => ActionView::Download {
                position: *position,
                identifier: identifier@,
                url: url@,
                destination: destination@,
            },
            Action::Seal => ActionView::Seal,
            Action::Finished => ActionView::Finished,
            Action::Ignored => ActionView::Ignored,
        }
    }
}

/// The file that a photo is downloaded to: its identifier and format below the target directory.
pub fn destination_path(target_dir: &String, asset: &RemoteAsset) -> (r: String)
    ensures
        r@ == destination_of(target_dir@, asset@),
{
    let mut path = target_dir.clone();
    proof {
        reveal_strlit("/");
        reveal_strlit(".");
    }
    path.append("/");
    path.append(asset.identifier.as_str());
    path.append(".");
    path.append(asset.format.as_str());
    assert(path@ =~= destination_of(target_dir@, asset@));
    path
}

/// One run of a backup, from its start to the sealing of its session record.
pub struct BackupRun {
    phase: Phase,
    index: PhotoIndex,
    work: Vec<usize>,
    cursor: usize,
    session: BackupSession,
    progress: ProgressSnapshot,
    next_token: Option<String>,
    retries: u32,
    fatal: Option<String>,
    policy: RetryPolicy,
    target_dir: String,
    tags: TagTable,
    context: ContextTable,
}

impl View for BackupRun {
    type V = RunView;

    closed spec fn view(&self) -> RunView {
        RunView {
            phase: self.phase,
            rows: self.index@,
            work: self.work@,
            cursor: self.cursor as nat,
            session: self.session@,
            progress: self.progress@,
            next_token: self.next_token.deep_view(),
            retries: self.retries as nat,
            fatal: self.fatal.deep_view(),
            policy: self.policy,
            target_dir: self.target_dir@,
            tags: self.tags@,
            context: self.context@,
        }
    }
}

impl BackupRun {
    /// The state is one that a run can be in.
    pub open spec fn wf(&self) -> bool {
        self@.valid()
    }

    /// A run that has not started, over the rows of `index` and its side tables.
    pub fn new(
        index: PhotoIndex,
        tags: TagTable,
        context: ContextTable,
        policy: RetryPolicy,
        target_dir: String,
    ) -> (r: BackupRun)
        requires
            index.wf(),
            tags.wf(),
        ensures
            r.wf(),
            r@ == RunView::idle(index@, tags@, context@, policy, target_dir@),
    {
        proof {
            index.len_is_bounded();
        }
        let r = BackupRun {
            phase: Phase::Idle,
            index,
            work: Vec::new(),
            cursor: 0,
            session: BackupSession::started(SessionKind::Full, String::new(), String::new()),
            progress: ProgressSnapshot::new(),
            next_token: None,
            retries: 0,
            fatal: None,
            policy,
            target_dir,
            tags,
            context,
        };
        assert(r@.work =~= Seq::<usize>::empty());
        r
    }

    /// Where the run stands.
    pub fn phase(&self) -> (r: Phase)
        ensures
            r == self@.phase,
    {
        self.phase
    }

    /// The index as the run has left it so far.
    pub fn index(&self) -> (r: &PhotoIndex)
        ensures
            r@ == self@.rows,
    {
        &self.index
    }

    /// The tag tables as the run has left them so far.
    pub fn tags(&self) -> (r: &TagTable)
        ensures
            r@ == self@.tags,
    {
        &self.tags
    }

    /// The context table as the run has left it so far.
    pub fn context(&self) -> (r: &ContextTable)
        ensures
            r@ == self@.context,
    {
        &self.context
    }

    /// Gives the index and its side tables back, as the run has left them.
    pub fn into_tables(self) -> (r: (PhotoIndex, TagTable, ContextTable))
        ensures
            r.0@ == self@.rows,
            r.1@ == self@.tags,
            r.2@ == self@.context,
    {
        (self.index, self.tags, self.context)
    }

    /// The session record of the run.
    pub fn session(&self) -> (r: &BackupSession)
        ensures
            r@ == self@.session,
    {
        &self.session
    }

    /// A copy of the progress of the run, for an observer.
    pub fn progress(&self) -> (r: ProgressSnapshot)
        ensures
            r@ == self@.progress,
    {
        self.progress.snapshot()
    }

    /// The number of downloads that the run has queued.
    pub fn queued(&self) -> (r: usize)
        ensures
            r == self@.work.len(),
    {
        self.work.len()
    }

    /// The number of queued downloads that have been attempted.
    pub fn attempted(&self) -> (r: usize)
        ensures
            r == self@.cursor,
    {
        self.cursor
    }

    /// What a run with the listing behind it asks for: the download at the cursor, or the seal.
    fn request(&self) -> (action: Action)
        requires
            self.wf(),
        ensures
            action@ == self@.request(),
    {
        match self.phase {
            Phase::Downloading => {
                let position = self.work[self.cursor];
                let row = self.index.row(position);
                Action::Download {
                    position,
                    identifier: row.asset.identifier.clone(),
                    url: row.asset.download_url.clone(),
                    destination: destination_path(&self.target_dir, &row.asset),
                }
            },
            _ => Action::Seal,
        }
    }

    /// Gives the run up for the reason `detail`.
    fn abort(&mut self, detail: String)
        ensures
            final(self)@ == old(self)@.aborted(detail@),
    {
        self.phase = Phase::Sealing;
        self.fatal = Some(detail);
        self.progress.set_status(RunStatus::Error);
    }

    /// Records the outcome of the download at the cursor and moves on.
    fn advance(&mut self, state: DownloadState, success: bool)
        requires
            old(self).wf(),
            old(self)@.phase == Phase::Downloading,
        ensures
            final(self)@ == old(self)@.advanced(
                state@,
                if success {
                    old(self)@.session.with_success(
                        old(self)@.rows[old(self)@.work[old(self)@.cursor as int] as int].asset.bytes,
                    )
                } else {
                    old(self)@.session.with_failure()
                },
            ),
    {
        let position = self.work[self.cursor];
        let row = self.index.row(position);
        let identifier = row.asset.identifier.clone();
        let bytes = row.asset.bytes;
        let ghost before = self@;
        proof {
            row_of_is_unique(before.rows, position as int);
            assert(before.session.total_bytes + bytes <= usize::MAX * u64::MAX) by (nonlinear_arith)
                requires
                    before.session.total_bytes <= before.session.successful_photos * u64::MAX,
                    before.session.successful_photos < usize::MAX,
                    bytes <= u64::MAX,
            ;
            assert(usize::MAX * u64::MAX <= u128::MAX) by (nonlinear_arith)
                requires
                    usize::MAX <= u64::MAX,
            ;
        }
        self.index.update_download_outcome(&identifier, state);
        self.session.total_photos = self.session.total_photos + 1;
        if success {
            self.session.successful_photos = self.session.successful_photos + 1;
            self.session.total_bytes = self.session.total_bytes + bytes as u128;
        } else {
            self.session.failed_photos = self.session.failed_photos + 1;
        }
        self.progress.record_completion(identifier);
        self.cursor = self.cursor + 1;
        self.phase = if self.cursor == self.work.len() {
            Phase::Sealing
        } else {
            Phase::Downloading
        };
        assert(self@.rows == with_state(before.rows, before.rows[position as int].asset.identifier, state@));
    }

    /// Takes one event and answers with the next thing to do. An event that
    /// does not fit the phase changes nothing and is answered with [`Action::Ignored`].
    pub fn step(&mut self, event: Event) -> (action: Action)
        requires
            old(self).wf(),
        ensures
            final(self).wf(),
            final(self)@ == old(self)@.next(event@),
            action@ == old(self)@.action(event@),
    {
        let ghost before = self@;
        let ghost reported = event@;
        let action = match (self.phase, event) {
            (Phase::Idle, Event::Start { account, started_at }) => {
                let kind = if self.index.len() == 0 {
                    SessionKind::Full
                } else {
                    SessionKind::Incremental
                };
                self.phase = Phase::Listing;
                self.session = BackupSession::started(kind, account, started_at);
                self.progress.reset(0);
                Action::ListPage { token: None, delay_ms: 0 }
            },
            (Phase::Listing, Event::PageListed { assets, next_token }) => {
                assert(work_fits(self.index@, self.work@));
                reconcile_page(&mut self.index, &mut self.work, &assets);
                self.phase = Phase::Reconciling;
                self.next_token = next_token;
                self.retries = 0;
                Action::StorePage
            },
            (Phase::Listing, Event::ListingFailed { error }) => {
                if error.is_retryable() && self.retries < self.policy.max_retries {
                    let delay_ms = self.policy.delay_ms(self.retries);
                    self.retries = self.retries + 1;
                    Action::ListPage { token: copy_opt_text(&self.next_token), delay_ms }
                } else {
                    self.abort(error.message());
                    Action::Seal
                }
            },
            (Phase::Reconciling, Event::PageStored) => {
                if self.next_token.is_some() {
                    self.phase = Phase::Listing;
                    Action::ListPage { token: copy_opt_text(&self.next_token), delay_ms: 0 }
                } else {
                    self.phase = if self.work.len() == 0 {
                        Phase::Sealing
                    } else {
                        Phase::Downloading
                    };
                    self.progress.reset(self.work.len());
                    self.progress.set_status(RunStatus::Running);
                    proof {
                        self.index.len_is_bounded();
                        self.tags.names_are_bounded();
                        next_keeps_valid(before, reported);
                    }
                    self.request()
                }
            },
            (Phase::Downloading, Event::Downloaded { local_path, checksum, backup_date }) => {
                let position = self.work[self.cursor];
                self.advance(DownloadState::Downloaded { local_path, checksum, backup_date }, true);
                let asset = &self.index.row(position).asset;
                match &asset.tags {
                    Some(tags) => {
                        self.tags.attach_tags(position, tags);
                    },
                    None => {
                        assert(asset.tags.deep_view() is None);
                    },
                }
                match &asset.context {
                    Some(context) => {
                        self.context.attach_context(position, context.pairs());
                    },
                    None => {
                        assert(self@.context =~= before.context + context_entries(
                            position,
                            context_of(asset@),
                        ));
                    },
                }
                proof {
                    self.index.len_is_bounded();
                    self.tags.names_are_bounded();
                    next_keeps_valid(before, reported);
                }
                self.request()
            },
            (Phase::Downloading, Event::DownloadFailed { error }) => {
                if error.is_fatal_for_run() {
                    self.abort(error.message());
                    Action::Seal
                } else {
                    self.advance(DownloadState::Failed { reason: error.message() }, false);
                    proof {
                        self.index.len_is_bounded();
                        self.tags.names_are_bounded();
                        next_keeps_valid(before, reported);
                    }
                    self.request()
                }
            },
            (Phase::Listing, Event::StoreFailed { detail }) => {
                self.abort(detail);
                Action::Seal
            },
            (Phase::Reconciling, Event::StoreFailed { detail }) => {
                self.abort(detail);
                Action::Seal
            },
            (Phase::Downloading, Event::StoreFailed { detail }) => {
                self.abort(detail);
                Action::Seal
            },
            (Phase::Sealing, Event::Sealed { completed_at }) => {
                self.session.completed_at = Some(completed_at);
                self.session.notes = copy_opt_text(&self.fatal);
                if self.fatal.is_some() {
                    self.phase = Phase::Failed;
                } else {
                    self.phase = Phase::Done;
                    self.progress.set_status(RunStatus::Done);
                }
                Action::Finished
            },
            _ => Action::Ignored,
        };
        proof {
            self.index.len_is_bounded();
            self.tags.names_are_bounded();
            next_keeps_valid(before, reported);
        }
        action
    }
}

} // verus!
