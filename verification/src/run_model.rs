//! The run of a backup as a state machine over mathematical values: the
//! state, the events that the outside world reports, and the actions it is
//! asked to perform.

use vstd::prelude::*;
use crate::asset::AssetView;
use crate::error::{ErrorView, RetryPolicy};
use crate::photo::{PhotoView, StateView};
use crate::progress::{ProgressView, RunStatus};
use crate::reconcile::{page_rows, page_work, reconcile_page_properties, work_fits};
use crate::rows::distinct_ids;
use crate::session::{SessionKind, SessionView};
use crate::tags::{attached_tags_are_carried, context_entries, TagsView};

verus! {

/// Where a run stands.
#[derive(Clone, Copy, Debug, PartialEq, Eq, Structural)]
pub enum Phase {
    /// Nothing has started.
    Idle,
    /// A page of the catalog has been asked for.
    Listing,
    /// A page has been reconciled; the store is writing its rows.
    Reconciling,
    /// A download has been asked for.
    Downloading,
    /// The run is over; the session record waits for its completion time.
    Sealing,
    /// The run ended after every queued download was attempted.
    Done,
    /// The run ended on an error that it could not recover from.
    Failed,
}

/// The state of a run.
pub ghost struct RunView {
    pub phase: Phase,
    pub rows: Seq<PhotoView>,
    /// The positions of the rows to download, in the order of their first listing.
    pub work: Seq<usize>,
    /// The number of entries of `work` that have been attempted.
    pub cursor: nat,
    pub session: SessionView,
    pub progress: ProgressView,
    /// The continuation token of the page asked for, or to ask for next.
    pub next_token: Option<Seq<char>>,
    /// How often the page asked for has been asked for again.
    pub retries: nat,
    /// Why the run was given up, if it was.
    pub fatal: Option<Seq<char>>,
    pub policy: RetryPolicy,
    pub target_dir: Seq<char>,
    pub tags: TagsView,
    /// The context entries of all photos, each with the position of its photo.
    pub context: Seq<(usize, Seq<char>, Seq<char>)>,
}

/// What the outside world reports to a run.
pub ghost enum EventView {
    Start { account: Seq<char>, started_at: Seq<char> },
    PageListed { assets: Seq<AssetView>, next_token: Option<Seq<char>> },
    ListingFailed { error: ErrorView },
    PageStored,
    Downloaded { local_path: Seq<char>, checksum: Seq<char>, backup_date: Seq<char> },
    DownloadFailed { error: ErrorView },
    StoreFailed { detail: Seq<char> },
    Sealed { completed_at: Seq<char> },
}

/// What a run asks the outside world to do next.
pub ghost enum ActionView {
    ListPage { token: Option<Seq<char>>, delay_ms: u64 },
    StorePage,
    Download { position: usize, identifier: Seq<char>, url: Seq<char>, destination: Seq<char> },
    Seal,
    Finished,
    Ignored,
}

/// The tags that the catalog lists for an asset.
pub open spec fn tags_of(asset: AssetView) -> Seq<Seq<char>> {
    match asset.tags {
        Some(tags) => tags,
        None => Seq::empty(),
    }
}

/// The context that the catalog lists for an asset.
pub open spec fn context_of(asset: AssetView) -> Seq<(Seq<char>, Seq<char>)> {
    match asset.context {
        Some(context) => context,
        None => Seq::empty(),
    }
}

/// The file that a photo is downloaded to: its identifier and format below the target directory.
pub open spec fn destination_of(target_dir: Seq<char>, asset: AssetView) -> Seq<char> {
    target_dir + seq!['/'] + asset.identifier + seq!['.'] + asset.format
}

impl RunView {
    /// A run that has not started, over the table `rows` and its side tables.
    pub open spec fn idle(
        rows: Seq<PhotoView>,
        tags: TagsView,
        context: Seq<(usize, Seq<char>, Seq<char>)>,
        policy: RetryPolicy,
        target_dir: Seq<char>,
    ) -> RunView {
        RunView {
            phase: Phase::Idle,
            rows,
            work: Seq::empty(),
            cursor: 0,
            session: SessionView::started(SessionKind::Full, Seq::empty(), Seq::empty()),
            progress: ProgressView::idle(),
            next_token: None,
            retries: 0,
            fatal: None,
            policy,
            target_dir,
            tags,
            context,
        }
    }

    /// Whether the run has ended.
    pub open spec fn is_over(self) -> bool {
        self.phase == Phase::Done || self.phase == Phase::Failed
    }

    /// What holds of every state that a run passes through.
    pub open spec fn valid(self) -> bool {
        &&& distinct_ids(self.rows)
        &&& self.rows.len() <= usize::MAX
        &&& self.cursor <= self.work.len() <= usize::MAX
        &&& forall|k: int| 0 <= k < self.work.len() ==> (#[trigger] self.work[k]) < self.rows.len()
        &&& forall|k: int, l: int| 0 <= k < l < self.work.len() ==> self.work[k] != self.work[l]
        &&& forall|k: int|
            self.cursor <= k < self.work.len() ==> !((#[trigger] self.rows[self.work[k] as int]).state
                is Downloaded)
        &&& self.session.balanced()
        &&& self.session.total_photos == self.cursor
        &&& self.progress.downloaded == self.cursor
        &&& self.session.is_open() == !self.is_over()
        &&& self.phase == Phase::Downloading ==> self.cursor < self.work.len()
        &&& (self.phase == Phase::Idle || self.phase == Phase::Listing || self.phase == Phase::Reconciling)
            ==> self.cursor == 0
        &&& self.phase == Phase::Sealing && self.fatal is None ==> self.cursor == self.work.len()
        &&& self.phase == Phase::Done ==> self.fatal is None && self.cursor == self.work.len()
        &&& self.phase == Phase::Failed ==> self.fatal is Some
        &&& self.fatal is Some ==> self.phase == Phase::Sealing || self.phase == Phase::Failed
        &&& self.retries <= self.policy.max_retries
        &&& self.tags.valid()
    }

    /// The request for the download of the work entry at the cursor.
    pub open spec fn download_request(self) -> ActionView {
        let position = self.work[self.cursor as int];
        let asset = self.rows[position as int].asset;
        ActionView::Download {
            position,
            identifier: asset.identifier,
            url: asset.download_url,
            destination: destination_of(self.target_dir, asset),
        }
    }

    /// The state in which the run is given up for the reason `detail`.
    pub open spec fn aborted(self, detail: Seq<char>) -> RunView {
        RunView {
            phase: Phase::Sealing,
            fatal: Some(detail),
            progress: self.progress.with_status(RunStatus::Error),
            ..self
        }
    }

    /// The state after the work entry at the cursor got the state `state`:
    /// the row holds it, the cursor has moved on, and the run goes on with
    /// the next entry or, after the last one, with sealing.
    pub open spec fn advanced(self, state: StateView, session: SessionView) -> RunView {
        let position = self.work[self.cursor as int] as int;
        let row = self.rows[position];
        RunView {
            phase: if self.cursor + 1 == self.work.len() {
                Phase::Sealing
            } else {
                Phase::Downloading
            },
            rows: self.rows.update(position, PhotoView { asset: row.asset, state }),
            cursor: self.cursor + 1,
            session,
            progress: self.progress.record_completion(row.asset.identifier),
            ..self
        }
    }

    /// The state after the download at the cursor is on disk: the row says
    /// so, the session counts it, and the tags and the context that the
    /// catalog lists for the asset are attached to the photo.
    pub open spec fn succeeded(self, local_path: Seq<char>, checksum: Seq<char>, backup_date: Seq<char>) -> RunView {
        let position = self.work[self.cursor as int];
        let asset = self.rows[position as int].asset;
        RunView {
            tags: self.tags.attached(position, tags_of(asset)),
            context: self.context + context_entries(position, context_of(asset)),
            ..self.advanced(
                StateView::Downloaded { local_path, checksum, backup_date },
                self.session.with_success(asset.bytes),
            )
        }
    }

    /// What a run in a phase with work left asks for: the download at the cursor, or the seal.
    pub open spec fn request(self) -> ActionView {
        if self.phase == Phase::Downloading {
            self.download_request()
        } else {
            ActionView::Seal
        }
    }

    /// The state after `event`. An event that does not fit the phase changes nothing.
    pub open spec fn next(self, event: EventView) -> RunView {
        match (self.phase, event) {
            (Phase::Idle, EventView::Start { account, started_at }) => RunView {
                phase: Phase::Listing,
                session: SessionView::started(
                    if self.rows.len() == 0 {
                        SessionKind::Full
                    } else {
                        SessionKind::Incremental
                    },
                    account,
                    started_at,
                ),
                progress: ProgressView::reset(0),
                ..self
            },
            (Phase::Listing, EventView::PageListed { assets, next_token }) => RunView {
                phase: Phase::Reconciling,
                rows: page_rows(self.rows, assets),
                work: page_work(self.rows, self.work, assets),
                next_token,
                retries: 0,
                ..self
            },
            (Phase::Listing, EventView::ListingFailed { error }) => {
                if error.is_retryable() && self.retries < self.policy.max_retries {
                    RunView { retries: self.retries + 1, ..self }
                } else {
                    self.aborted(error.message())
                }
            },
            (Phase::Reconciling, EventView::PageStored) => {
                if self.next_token is Some {
                    RunView { phase: Phase::Listing, ..self }
                } else {
                    RunView {
                        phase: if self.work.len() == 0 {
                            Phase::Sealing
                        } else {
                            Phase::Downloading
                        },
                        progress: ProgressView::reset(self.work.len()).with_status(RunStatus::Running),
                        ..self
                    }
                }
            },
            (Phase::Downloading, EventView::Downloaded { local_path, checksum, backup_date }) => {
                self.succeeded(local_path, checksum, backup_date)
            },
            (Phase::Downloading, EventView::DownloadFailed { error }) => {
                if error.is_fatal_for_run() {
                    self.aborted(error.message())
                } else {
                    self.advanced(StateView::Failed { reason: error.message() }, self.session.with_failure())
                }
            },
            (Phase::Listing, EventView::StoreFailed { detail }) => self.aborted(detail),
            (Phase::Reconciling, EventView::StoreFailed { detail }) => self.aborted(detail),
            (Phase::Downloading, EventView::StoreFailed { detail }) => self.aborted(detail),
            (Phase::Sealing, EventView::Sealed { completed_at }) => RunView {
                phase: if self.fatal is Some {
                    Phase::Failed
                } else {
                    Phase::Done
                },
                session: self.session.sealed(completed_at, self.fatal),
                progress: if self.fatal is Some {
                    self.progress
                } else {
                    self.progress.with_status(RunStatus::Done)
                },
                ..self
            },
            _ => self,
        }
    }

    /// The state after each of `events` in turn.
    pub open spec fn after(self, events: Seq<EventView>) -> RunView
        decreases events.len(),
    {
        if events.len() == 0 {
            self
        } else {
            self.after(events.drop_last()).next(events.last())
        }
    }

    /// What the run asks for after `event`.
    pub open spec fn action(self, event: EventView) -> ActionView {
        let after = self.next(event);
        match (self.phase, event) {
            (Phase::Idle, EventView::Start { .. }) => ActionView::ListPage { token: None, delay_ms: 0 },
            (Phase::Listing, EventView::PageListed { .. }) => ActionView::StorePage,
            (Phase::Listing, EventView::ListingFailed { error }) => {
                if error.is_retryable() && self.retries < self.policy.max_retries {
                    ActionView::ListPage {
                        token: self.next_token,
                        delay_ms: self.policy.delay_spec(self.retries) as u64,
                    }
                } else {
                    ActionView::Seal
                }
            },
            (Phase::Reconciling, EventView::PageStored) => {
                if self.next_token is Some {
                    ActionView::ListPage { token: self.next_token, delay_ms: 0 }
                } else {
                    after.request()
                }
            },
            (Phase::Downloading, EventView::Downloaded { .. }) => after.request(),
            (Phase::Downloading, EventView::DownloadFailed { .. }) => after.request(),
            (Phase::Listing, EventView::StoreFailed { .. }) => ActionView::Seal,
            (Phase::Reconciling, EventView::StoreFailed { .. }) => ActionView::Seal,
            (Phase::Downloading, EventView::StoreFailed { .. }) => ActionView::Seal,
            (Phase::Sealing, EventView::Sealed { .. }) => ActionView::Finished,
            _ => ActionView::Ignored,
        }
    }
}

/// Every event leaves a run in a state that a run can be in, as long as
/// the table stays within what positions can address.
pub proof fn next_keeps_valid(run: RunView, event: EventView)
    requires
        run.valid(),
        run.next(event).rows.len() <= usize::MAX,
        run.next(event).tags.names.len() <= usize::MAX,
    ensures
        run.next(event).valid(),
{
    let after = run.next(event);
    match (run.phase, event) {
        (Phase::Listing, EventView::PageListed { assets, next_token }) => {
            assert(work_fits(run.rows, run.work));
            reconcile_page_properties(run.rows, run.work, assets);
            assert(work_fits(after.rows, after.work));
            assert(after.work.len() <= usize::MAX) by {
                distinct_positions_are_few(after.work, after.rows.len());
            }
        },
        (Phase::Downloading, EventView::Downloaded { local_path, checksum, backup_date }) => {
            let position = run.work[run.cursor as int];
            let row = run.rows[position as int];
            advanced_keeps_valid(
                run,
                StateView::Downloaded { local_path, checksum, backup_date },
                run.session.with_success(row.asset.bytes),
            );
            attached_tags_are_carried(run.tags, position, tags_of(row.asset));
        },
        (Phase::Downloading, EventView::DownloadFailed { error }) => {
            if !error.is_fatal_for_run() {
                advanced_keeps_valid(
                    run,
                    StateView::Failed { reason: error.message() },
                    run.session.with_failure(),
                );
            }
        },
        _ => {},
    }
}

/// Moving the cursor over one work entry keeps the state one that a run can be in.
pub proof fn advanced_keeps_valid(run: RunView, state: StateView, session: SessionView)
    requires
        run.valid(),
        run.phase == Phase::Downloading,
        session == run.session.with_failure() || session == run.session.with_success(
            run.rows[run.work[run.cursor as int] as int].asset.bytes,
        ),
    ensures
        run.advanced(state, session).valid(),
{
    let after = run.advanced(state, session);
    let position = run.work[run.cursor as int] as int;
    assert(0 <= position < run.rows.len());
    assert(after.rows.len() == run.rows.len());
    assert forall|i: int, j: int| 0 <= i < j < after.rows.len() implies #[trigger] after.rows[i].asset.identifier
        != #[trigger] after.rows[j].asset.identifier by {
        assert(after.rows[i].asset.identifier == run.rows[i].asset.identifier);
        assert(after.rows[j].asset.identifier == run.rows[j].asset.identifier);
        assert(run.rows[i].asset.identifier != run.rows[j].asset.identifier);
    }
    assert forall|k: int| after.cursor <= k < after.work.len() implies !((
    #[trigger] after.rows[after.work[k] as int]).state is Downloaded) by {
        assert(run.work[run.cursor as int] != run.work[k]);
        assert(after.rows[after.work[k] as int] == run.rows[run.work[k] as int]);
    }
    assert(session.balanced()) by {
        let bytes = run.rows[position].asset.bytes;
        assert(run.session.total_bytes + bytes <= (run.session.successful_photos + 1) * u64::MAX)
            by (nonlinear_arith)
            requires
                run.session.total_bytes <= run.session.successful_photos * u64::MAX,
                bytes <= u64::MAX,
        ;
        assert(run.session.total_bytes <= (run.session.successful_photos + 1) * u64::MAX) by (nonlinear_arith)
            requires
                run.session.total_bytes <= run.session.successful_photos * u64::MAX,
        ;
    }
}

/// A list of distinct positions below a bound is no longer than the bound.
pub proof fn distinct_positions_are_few(work: Seq<usize>, bound: nat)
    requires
        forall|k: int| 0 <= k < work.len() ==> (#[trigger] work[k]) < bound,
        forall|k: int, l: int| 0 <= k < l < work.len() ==> work[k] != work[l],
    ensures
        work.len() <= bound,
    decreases bound,
{
    if work.len() > 0 {
        if bound == 0 {
            assert(work[0] < bound);
        } else {
            // Drop the entry that holds the largest position, if any does.
            let top = (bound - 1) as usize;
            if work.contains(top) {
                let at = choose|at: int| 0 <= at < work.len() && work[at] == top;
                let rest = work.remove(at);
                assert forall|k: int| 0 <= k < rest.len() implies (#[trigger] rest[k]) < bound - 1 by {
                    if k < at {
                        assert(rest[k] == work[k]);
                        assert(work[k] != work[at]);
                    } else {
                        assert(rest[k] == work[k + 1]);
                        assert(work[at] != work[k + 1]);
                    }
                }
                assert forall|k: int, l: int| 0 <= k < l < rest.len() implies rest[k] != rest[l] by {
                    let a = if k < at { k } else { k + 1 };
                    let b = if l < at { l } else { l + 1 };
                    assert(rest[k] == work[a] && rest[l] == work[b]);
                }
                distinct_positions_are_few(rest, (bound - 1) as nat);
            } else {
                assert forall|k: int| 0 <= k < work.len() implies (#[trigger] work[k]) < bound - 1 by {
                    if work[k] == top {
                        assert(work.contains(top));
                    }
                }
                distinct_positions_are_few(work, (bound - 1) as nat);
            }
        }
    }
}

} // verus!
