//! What holds of whole runs.

use vstd::prelude::*;
use crate::asset::AssetView;
use crate::laws::{
    listed_at_one_version, listed_rows_carry_listed_versions, nothing_queued_when_all_on_disk,
    on_disk_as_listed, one_version_each, pages_in_turn_are_one_listing, queued_iff_not_on_disk,
    stays_on_disk,
};
use crate::photo::{PhotoView, StateView};
use crate::reconcile::{page_rows, page_rows_grow, page_work, reconcile_page_properties};
use crate::rows::{distinct_ids, row_of, row_of_is_unique};
use crate::run_model::{next_keeps_valid, tags_of, EventView, Phase, RunView};
use crate::tags::attached_names_grow;
use crate::stats::{
    counts_after_update, downloaded_count, failed_count, in_failure, share_is_bounded, share_permyriad,
    untouched_counts_nothing,
};

verus! {

/// Whether an event reports how a download ended, without ending the run.
pub open spec fn is_outcome(event: EventView) -> bool {
    match event {
        EventView::Downloaded { .. } => true,
        EventView::DownloadFailed { error } => !error.is_fatal_for_run(),
        _ => false,
    }
}

/// The state that a row is given for an outcome.
pub open spec fn recorded_state(event: EventView) -> StateView {
    match event {
        EventView::Downloaded { local_path, checksum, backup_date } => StateView::Downloaded {
            local_path,
            checksum,
            backup_date,
        },
        EventView::DownloadFailed { error } => StateView::Failed { reason: error.message() },
        _ => StateView::NotAttempted,
    }
}

/// How many of the events report a download on disk.
pub open spec fn successes(events: Seq<EventView>) -> nat
    decreases events.len(),
{
    if events.len() == 0 {
        0
    } else {
        successes(events.drop_last()) + if events.last() is Downloaded {
            1nat
        } else {
            0nat
        }
    }
}

/// How many of the events report a failed download.
pub open spec fn failures(events: Seq<EventView>) -> nat
    decreases events.len(),
{
    if events.len() == 0 {
        0
    } else {
        failures(events.drop_last()) + if events.last() is DownloadFailed {
            1nat
        } else {
            0nat
        }
    }
}

/// How many of the work entries from `from` up to `to` stood at a failed attempt.
pub open spec fn failed_before(rows: Seq<PhotoView>, work: Seq<usize>, from: int, to: int) -> nat
    decreases to - from,
{
    if to <= from {
        0
    } else {
        failed_before(rows, work, from, to - 1) + in_failure(rows[work[to - 1] as int])
    }
}

/// A failed download never keeps another from being attempted and
/// recorded: whatever mix of outcomes is reported, each one is recorded on
/// the row of its own work entry, the cursor moves over all of them, no other
/// row changes, and the run goes on to sealing after the last entry.
pub proof fn every_queued_download_is_recorded(run: RunView, outcomes: Seq<EventView>)
    requires
        run.valid(),
        run.phase == Phase::Downloading,
        outcomes.len() <= run.work.len() - run.cursor,
        forall|k: int| 0 <= k < outcomes.len() ==> is_outcome(#[trigger] outcomes[k]),
        run.after(outcomes).tags.names.len() <= usize::MAX,
    ensures
        ({
            let done = run.after(outcomes);
            &&& done.valid()
            &&& done.work == run.work
            &&& done.cursor == run.cursor + outcomes.len()
            &&& done.fatal is None
            &&& done.phase == if done.cursor == run.work.len() {
                Phase::Sealing
            } else {
                Phase::Downloading
            }
            &&& done.rows.len() == run.rows.len()
            &&& forall|i: int| 0 <= i < run.rows.len() ==> (#[trigger] done.rows[i]).asset == run.rows[i].asset
            &&& forall|k: int|
                run.cursor <= k < run.cursor + outcomes.len() ==> done.rows[(#[trigger] run.work[k]) as int].state
                    == recorded_state(outcomes[k - run.cursor])
            &&& forall|i: int|
                0 <= i < run.rows.len() && (forall|k: int|
                    run.cursor <= k < run.cursor + outcomes.len() ==> (#[trigger] run.work[k]) != i)
                    ==> #[trigger] done.rows[i] == run.rows[i]
            &&& done.session.successful_photos == run.session.successful_photos + successes(outcomes)
            &&& done.session.failed_photos == run.session.failed_photos + failures(outcomes)
            &&& successes(outcomes) + failures(outcomes) == outcomes.len()
            &&& downloaded_count(done.rows) == downloaded_count(run.rows) + successes(outcomes)
            &&& failed_count(done.rows) + failed_before(
                run.rows,
                run.work,
                run.cursor as int,
                (run.cursor + outcomes.len()) as int,
            ) == failed_count(run.rows) + failures(outcomes)
        }),
    decreases outcomes.len(),
{
    if outcomes.len() > 0 {
        let init = outcomes.drop_last();
        let event = outcomes.last();
        let n = init.len() as int;
        assert forall|k: int| 0 <= k < init.len() implies is_outcome(#[trigger] init[k]) by {
            assert(init[k] == outcomes[k]);
        }
        let mid = run.after(init);
        let done = run.after(outcomes);
        assert(done == mid.next(event));
        assert(event == outcomes[n]);
        assert(is_outcome(event));
        assert(mid.tags.names.len() <= done.tags.names.len()) by {
            let position = mid.work[mid.cursor as int];
            attached_names_grow(mid.tags, position, tags_of(mid.rows[position as int].asset));
        }
        every_queued_download_is_recorded(run, init);
        assert(mid.phase == Phase::Downloading);
        let position = mid.work[mid.cursor as int] as int;
        assert(position == run.work[run.cursor + n] as int);
        assert(0 <= position < mid.rows.len());
        let row = mid.rows[position];
        let session = if event is Downloaded {
            mid.session.with_success(row.asset.bytes)
        } else {
            mid.session.with_failure()
        };
        let base = mid.advanced(recorded_state(event), session);
        assert(done.rows == base.rows && done.cursor == base.cursor && done.phase == base.phase
            && done.session == base.session && done.work == base.work && done.fatal == base.fatal);
        next_keeps_valid(mid, event);
        let written = PhotoView { asset: row.asset, state: recorded_state(event) };
        assert(done.rows == mid.rows.update(position, written));
        counts_after_update(mid.rows, position, written);
        // The row at the cursor was untouched so far.
        let c = run.cursor as int;
        assert(mid.rows[position] == run.rows[position]) by {
            assert forall|k: int| c <= k < c + init.len() implies (#[trigger] run.work[k]) != position by {
                assert(run.work[k] != run.work[c + n]);
            }
        }
        assert(!(row.state is Downloaded));
        assert forall|k: int| c <= k < c + outcomes.len() implies done.rows[(
        #[trigger] run.work[k]) as int].state == recorded_state(outcomes[k - c]) by {
            if k < c + n {
                assert(run.work[k] != run.work[c + n]);
                assert(done.rows[run.work[k] as int] == mid.rows[run.work[k] as int]);
                assert(init[k - c] == outcomes[k - c]);
            }
        }
        assert forall|i: int|
            0 <= i < run.rows.len() && (forall|k: int|
                c <= k < c + outcomes.len() ==> (#[trigger] run.work[k]) != i) implies #[trigger] done.rows[i]
            == run.rows[i] by {
            assert(run.work[c + n] != i);
            assert(done.rows[i] == mid.rows[i]);
            assert forall|k: int| c <= k < c + init.len() implies (#[trigger] run.work[k]) != i by {}
        }
        assert forall|i: int| 0 <= i < run.rows.len() implies (#[trigger] done.rows[i]).asset
            == run.rows[i].asset by {
            assert(mid.rows[i].asset == run.rows[i].asset);
        }
        assert(failed_before(run.rows, run.work, run.cursor as int, (run.cursor + outcomes.len()) as int)
            == failed_before(run.rows, run.work, run.cursor as int, run.cursor + n) + in_failure(
            run.rows[position],
        ));
    } else {
        assert(run.fatal is None);
    }
}

/// No entry of the work list from `from` up to `to` stood at a failed
/// attempt where no row of the table did.
pub proof fn untouched_rows_failed_nowhere(rows: Seq<PhotoView>, work: Seq<usize>, from: int, to: int)
    requires
        0 <= from <= to <= work.len(),
        forall|k: int| 0 <= k < work.len() ==> (#[trigger] work[k]) < rows.len(),
        forall|i: int| 0 <= i < rows.len() ==> (#[trigger] rows[i]).state is NotAttempted,
    ensures
        failed_before(rows, work, from, to) == 0,
    decreases to - from,
{
    if from < to {
        untouched_rows_failed_nowhere(rows, work, from, to - 1);
        assert(work[to - 1] < rows.len());
        assert(rows[work[to - 1] as int].state is NotAttempted);
    }
}

/// After a first run in which every row was queued, N downloads succeeded
/// and M failed, the index counts N photos on disk and M failed among its
/// N + M rows, the share on disk is N in N + M, and the session record
/// carries the same totals.
pub proof fn statistics_after_first_run(run: RunView, outcomes: Seq<EventView>)
    requires
        run.valid(),
        run.phase == Phase::Downloading,
        run.cursor == 0,
        run.work.len() == run.rows.len(),
        forall|i: int| 0 <= i < run.rows.len() ==> (#[trigger] run.rows[i]).state is NotAttempted,
        outcomes.len() == run.work.len(),
        forall|k: int| 0 <= k < outcomes.len() ==> is_outcome(#[trigger] outcomes[k]),
        run.after(outcomes).tags.names.len() <= usize::MAX,
    ensures
        ({
            let done = run.after(outcomes);
            let n = successes(outcomes);
            let m = failures(outcomes);
            &&& done.phase == Phase::Sealing
            &&& done.rows.len() == n + m
            &&& downloaded_count(done.rows) == n
            &&& failed_count(done.rows) == m
            &&& share_permyriad(downloaded_count(done.rows), done.rows.len()) == share_permyriad(n, n + m)
            &&& m == 0 && n > 0 ==> share_permyriad(downloaded_count(done.rows), done.rows.len()) == 10000
            &&& done.session.total_photos == n + m
            &&& done.session.successful_photos == n
            &&& done.session.failed_photos == m
        }),
{
    every_queued_download_is_recorded(run, outcomes);
    untouched_counts_nothing(run.rows);
    untouched_rows_failed_nowhere(run.rows, run.work, 0, run.work.len() as int);
    share_is_bounded(successes(outcomes), successes(outcomes) + failures(outcomes));
}

/// One page of a listing as it arrives.
pub ghost struct ListedPage {
    pub assets: Seq<AssetView>,
    pub next_token: Option<Seq<char>>,
}

/// The events of a listing that goes well: each page arrives, then its rows are stored.
pub open spec fn listing_events(pages: Seq<ListedPage>) -> Seq<EventView>
    decreases pages.len(),
{
    if pages.len() == 0 {
        Seq::empty()
    } else {
        listing_events(pages.drop_last()).push(
            EventView::PageListed { assets: pages.last().assets, next_token: pages.last().next_token },
        ).push(EventView::PageStored)
    }
}

/// The assets of all pages, in the order of their listing.
pub open spec fn all_assets(pages: Seq<ListedPage>) -> Seq<AssetView>
    decreases pages.len(),
{
    if pages.len() == 0 {
        Seq::empty()
    } else {
        all_assets(pages.drop_last()) + pages.last().assets
    }
}

/// The state after the pages `pages`, each with a continuation token, and
/// then the page `last` without one have arrived and been stored.
pub open spec fn after_listing(run: RunView, pages: Seq<ListedPage>, last: Seq<AssetView>) -> RunView {
    run.after(listing_events(pages)).next(EventView::PageListed { assets: last, next_token: None }).next(
        EventView::PageStored,
    )
}

/// The state after one more event.
pub proof fn after_one_more(run: RunView, events: Seq<EventView>, event: EventView)
    ensures
        run.after(events.push(event)) == run.after(events).next(event),
{
    assert(events.push(event).drop_last() =~= events);
}

/// However many pages a listing has, the run reconciles them as one
/// listing: while pages arrive with a continuation token the run stays in
/// the listing phase, and its table and its work list are those of
/// reconciling the assets of all pages so far, in their order.
pub proof fn pages_are_reconciled_in_turn(run: RunView, pages: Seq<ListedPage>)
    requires
        run.valid(),
        run.phase == Phase::Listing,
        forall|k: int| 0 <= k < pages.len() ==> (#[trigger] pages[k]).next_token is Some,
        page_rows(run.rows, all_assets(pages)).len() <= usize::MAX,
    ensures
        ({
            let after = run.after(listing_events(pages));
            &&& after.valid()
            &&& after.phase == Phase::Listing
            &&& after.rows == page_rows(run.rows, all_assets(pages))
            &&& after.work == page_work(run.rows, run.work, all_assets(pages))
            &&& after.tags == run.tags
            &&& after.context == run.context
            &&& after.session == run.session
        }),
    decreases pages.len(),
{
    if pages.len() > 0 {
        let init = pages.drop_last();
        let page = pages.last();
        assert(page == pages[pages.len() - 1]);
        let listed = EventView::PageListed { assets: page.assets, next_token: page.next_token };
        assert forall|k: int| 0 <= k < init.len() implies (#[trigger] init[k]).next_token is Some by {
            assert(init[k] == pages[k]);
        }
        pages_in_turn_are_one_listing(run.rows, run.work, all_assets(init), page.assets);
        page_rows_grow(page_rows(run.rows, all_assets(init)), page.assets);
        pages_are_reconciled_in_turn(run, init);
        let mid = run.after(listing_events(init));
        after_one_more(run, listing_events(init), listed);
        after_one_more(run, listing_events(init).push(listed), EventView::PageStored);
        next_keeps_valid(mid, listed);
        next_keeps_valid(mid.next(listed), EventView::PageStored);
    }
}

/// A run resumes with what is missing, whatever the number of pages: once
/// the whole listing has arrived, the table and the work list are those of
/// reconciling all listed assets as one listing; a listed asset is queued if
/// and only if it was not on disk at the version that the listing gives it;
/// a row that was, is left as it was; and no row is queued twice.
pub proof fn run_queues_what_is_not_on_disk(run: RunView, pages: Seq<ListedPage>, last: Seq<AssetView>)
    requires
        run.valid(),
        run.phase == Phase::Listing,
        run.work.len() == 0,
        forall|k: int| 0 <= k < pages.len() ==> (#[trigger] pages[k]).next_token is Some,
        page_rows(run.rows, all_assets(pages) + last).len() <= usize::MAX,
    ensures
        ({
            let listing = all_assets(pages) + last;
            let listed = after_listing(run, pages, last);
            &&& listed.valid()
            &&& listed.rows == page_rows(run.rows, listing)
            &&& listed.work == page_work(run.rows, Seq::<usize>::empty(), listing)
            &&& listed.cursor == 0
            &&& listed.fatal is None
            &&& listed.phase == if listed.work.len() == 0 {
                Phase::Sealing
            } else {
                Phase::Downloading
            }
            &&& forall|k: int, l: int| 0 <= k < l < listed.work.len() ==> listed.work[k] != listed.work[l]
            &&& forall|j: int|
                0 <= j < listing.len() ==> {
                    let p = row_of(listed.rows, (#[trigger] listing[j]).identifier);
                    &&& 0 <= p < listed.rows.len()
                    &&& listed.rows[p].asset.identifier == listing[j].identifier
                    &&& listed.work.contains(p as usize) == !stays_on_disk(
                        run.rows,
                        listing,
                        listing[j].identifier,
                    )
                    &&& stays_on_disk(run.rows, listing, listing[j].identifier) ==> listed.rows[p]
                        == run.rows[row_of(run.rows, listing[j].identifier)]
                    &&& listed_at_one_version(listing, listing[j].identifier) ==> stays_on_disk(
                        run.rows,
                        listing,
                        listing[j].identifier,
                    ) == on_disk_as_listed(run.rows, listing[j])
                }
        }),
{
    let none = Seq::<usize>::empty();
    assert(run.work =~= none);
    let listing = all_assets(pages) + last;
    let page = EventView::PageListed { assets: last, next_token: None };
    pages_in_turn_are_one_listing(run.rows, run.work, all_assets(pages), last);
    page_rows_grow(page_rows(run.rows, all_assets(pages)), last);
    pages_are_reconciled_in_turn(run, pages);
    let mid = run.after(listing_events(pages));
    next_keeps_valid(mid, page);
    next_keeps_valid(mid.next(page), EventView::PageStored);
    queued_iff_not_on_disk(run.rows, listing);
}

/// Running again right after a run in which every download succeeded
/// downloads nothing: once a listing of any number of pages has been
/// reconciled and each queued download is on disk, the same listing queues
/// no download and changes no row.
pub proof fn rerun_after_success_downloads_nothing(
    run: RunView,
    pages: Seq<ListedPage>,
    last: Seq<AssetView>,
    outcomes: Seq<EventView>,
)
    requires
        run.valid(),
        run.phase == Phase::Listing,
        run.work.len() == 0,
        forall|k: int| 0 <= k < pages.len() ==> (#[trigger] pages[k]).next_token is Some,
        one_version_each(all_assets(pages) + last),
        page_rows(run.rows, all_assets(pages) + last).len() <= usize::MAX,
        outcomes.len() == page_work(run.rows, Seq::<usize>::empty(), all_assets(pages) + last).len(),
        forall|k: int| 0 <= k < outcomes.len() ==> (#[trigger] outcomes[k]) is Downloaded,
        after_listing(run, pages, last).after(outcomes).tags.names.len() <= usize::MAX,
    ensures
        ({
            let listing = all_assets(pages) + last;
            let done = after_listing(run, pages, last).after(outcomes);
            &&& done.phase == Phase::Sealing
            &&& done.fatal is None
            &&& page_work(done.rows, Seq::<usize>::empty(), listing) == Seq::<usize>::empty()
            &&& page_rows(done.rows, listing) == done.rows
        }),
{
    let none = Seq::<usize>::empty();
    let listing = all_assets(pages) + last;
    let listed = after_listing(run, pages, last);
    let done = listed.after(outcomes);
    let next = page_rows(run.rows, listing);
    let plan = page_work(run.rows, none, listing);
    run_queues_what_is_not_on_disk(run, pages, last);
    assert(listed.rows == next && listed.work == plan);
    reconcile_page_properties(run.rows, none, listing);
    listed_rows_carry_listed_versions(run.rows, listing);
    if plan.len() > 0 {
        assert forall|k: int| 0 <= k < outcomes.len() implies is_outcome(#[trigger] outcomes[k]) by {
            assert(outcomes[k] is Downloaded);
        }
        every_queued_download_is_recorded(listed, outcomes);
    } else {
        assert(outcomes =~= Seq::<EventView>::empty());
        assert(done == listed);
    }
    assert(distinct_ids(done.rows));
    assert forall|j: int| 0 <= j < listing.len() implies on_disk_as_listed(done.rows, #[trigger] listing[j]) by {
        let id = listing[j].identifier;
        let p = row_of(next, id);
        assert(0 <= p < next.len() && next[p].asset.identifier == id);
        assert(done.rows[p].asset == next[p].asset);
        assert(done.rows[p].asset.identifier == id);
        row_of_is_unique(done.rows, p);
        if plan.contains(p as usize) {
            let k = choose|k: int| 0 <= k < plan.len() && plan[k] == p as usize;
            assert(done.rows[listed.work[k] as int].state == recorded_state(outcomes[k]));
            assert(outcomes[k] is Downloaded);
        } else {
            assert(next[p].state is Downloaded);
            assert forall|k: int| 0 <= k < outcomes.len() implies (#[trigger] listed.work[k]) != p by {
                if listed.work[k] == p {
                    assert(plan.contains(p as usize));
                }
            }
            if plan.len() > 0 {
                assert(done.rows[p] == listed.rows[p]);
            }
        }
    }
    nothing_queued_when_all_on_disk(done.rows, listing);
}

/// An interrupted run can be told from its session record: from the start
/// of a run on, whatever events arrive, the record has no completion time
/// exactly as long as the run has not ended.
pub proof fn session_is_open_until_the_run_ends(run: RunView, events: Seq<EventView>)
    requires
        run.valid(),
        forall|n: int|
            0 <= n <= events.len() ==> (#[trigger] run.after(events.take(n))).rows.len() <= usize::MAX
                && run.after(events.take(n)).tags.names.len() <= usize::MAX,
    ensures
        run.after(events).valid(),
        run.after(events).session.completed_at is None == !run.after(events).is_over(),
    decreases events.len(),
{
    assert(events.take(events.len() as int) =~= events);
    if events.len() > 0 {
        let init = events.drop_last();
        assert forall|n: int| 0 <= n <= init.len() implies (#[trigger] run.after(init.take(n))).rows.len()
            <= usize::MAX && run.after(init.take(n)).tags.names.len() <= usize::MAX by {
            assert(init.take(n) =~= events.take(n));
        }
        session_is_open_until_the_run_ends(run, init);
        next_keeps_valid(run.after(init), events.last());
    }
}

} // verus!
