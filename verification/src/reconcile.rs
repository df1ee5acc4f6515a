//! Reconciliation: what a freshly listed asset means for the index and for
//! the list of downloads still to make.

use vstd::prelude::*;
use crate::asset::{AssetView, RemoteAsset};
use crate::index::PhotoIndex;
use crate::photo::{DownloadState, IndexedPhoto, PhotoView, StateView};
use crate::rows::{
    distinct_ids, has_row, present_id_counts_one, row_of, row_of_is_unique, rows_with_id, upsert_row,
    upsert_row_keeps_distinct,
};

verus! {

/// What reconciliation decides for one listed asset.
#[derive(Clone, Copy, Debug, PartialEq, Eq, Structural)]
pub enum Decision {
    /// The index has no row for it: one is created and the asset is queued.
    Insert,
    /// It is on disk at the listed version: nothing is done.
    Skip,
    /// The index has a row that is not on disk at the listed version: the asset is queued.
    Requeue,
}

/// The decision for `asset` against the table `rows`.
pub open spec fn decide_spec(rows: Seq<PhotoView>, asset: AssetView) -> Decision {
    if !has_row(rows, asset.identifier) {
        Decision::Insert
    } else if rows[row_of(rows, asset.identifier)].is_current(asset) {
        Decision::Skip
    } else {
        Decision::Requeue
    }
}

/// The row that takes the place of `row` when `asset` is queued again: it
/// mirrors the listed metadata, and a photo that was on disk counts as not yet attempted.
pub open spec fn refreshed_row(row: PhotoView, asset: AssetView) -> PhotoView {
    PhotoView {
        asset,
        state: if row.state is Downloaded {
            StateView::NotAttempted
        } else {
            row.state
        },
    }
}

/// The table after `asset` is reconciled.
pub open spec fn reconciled_rows(rows: Seq<PhotoView>, asset: AssetView) -> Seq<PhotoView> {
    match decide_spec(rows, asset) {
        Decision::Insert => upsert_row(rows, PhotoView::pending(asset)),
        Decision::Skip => rows,
        Decision::Requeue => upsert_row(rows, refreshed_row(rows[row_of(rows, asset.identifier)], asset)),
    }
}

/// The work list with `position` in it: added at the end unless it is there already.
pub open spec fn queued(work: Seq<usize>, position: usize) -> Seq<usize> {
    if work.contains(position) {
        work
    } else {
        work.push(position)
    }
}

/// The work list after `asset` is reconciled.
pub open spec fn reconciled_work(rows: Seq<PhotoView>, work: Seq<usize>, asset: AssetView) -> Seq<usize> {
    match decide_spec(rows, asset) {
        Decision::Skip => work,
        _ => queued(work, row_of(reconciled_rows(rows, asset), asset.identifier) as usize),
    }
}

/// A work list fits a table when its entries are positions of rows, none
/// occurs twice, and none of the rows is on disk.
pub open spec fn work_fits(rows: Seq<PhotoView>, work: Seq<usize>) -> bool {
    &&& forall|k: int| 0 <= k < work.len() ==> (#[trigger] work[k]) < rows.len()
    &&& forall|k: int, l: int| 0 <= k < l < work.len() ==> work[k] != work[l]
    &&& forall|k: int| 0 <= k < work.len() ==> !((#[trigger] rows[work[k] as int]).state is Downloaded)
}

/// Decides what to do with a listed asset.
pub fn decide(index: &PhotoIndex, asset: &RemoteAsset) -> (d: Decision)
    requires
        index.wf(),
    ensures
        d == decide_spec(index@, asset@),
{
    match index.get_photo(&asset.identifier) {
        None => Decision::Insert,
        Some(row) => {
            if row.is_current(asset) {
                Decision::Skip
            } else {
                Decision::Requeue
            }
        },
    }
}

/// Whether `position` is in the work list.
pub fn is_queued(work: &Vec<usize>, position: usize) -> (r: bool)
    ensures
        r == work@.contains(position),
{
    let mut i: usize = 0;
    while i < work.len()
        invariant
            i <= work.len(),
            forall|j: int| 0 <= j < i ==> work@[j] != position,
        decreases work.len() - i,
    {
        if work[i] == position {
            assert(work@[i as int] == position);
            return true;
        }
        i += 1;
    }
    false
}

/// Reconciles one listed asset: brings the index up to date and queues the
/// asset unless it is on disk at the listed version.
pub fn reconcile_asset(index: &mut PhotoIndex, work: &mut Vec<usize>, asset: &RemoteAsset) -> (d: Decision)
    requires
        old(index).wf(),
    ensures
        final(index).wf(),
        d == decide_spec(old(index)@, asset@),
        final(index)@ == reconciled_rows(old(index)@, asset@),
        final(work)@ == reconciled_work(old(index)@, old(work)@, asset@),
{
    let d = decide(index, asset);
    let position = match d {
        Decision::Skip => {
            return d;
        },
        Decision::Insert => index.upsert_photo(IndexedPhoto::pending(asset.duplicate())),
        Decision::Requeue => {
            let state = match index.get_photo(&asset.identifier) {
                Some(row) => match &row.state {
                    DownloadState::Downloaded { .. } => DownloadState::NotAttempted,
                    other => other.duplicate(),
                },
                None => DownloadState::NotAttempted,
            };
            index.upsert_photo(IndexedPhoto { asset: asset.duplicate(), state })
        },
    };
    if !is_queued(work, position) {
        work.push(position);
    }
    d
}

/// What one step of reconciliation does to a table and a work list that fit together.
pub proof fn reconcile_step(rows: Seq<PhotoView>, work: Seq<usize>, asset: AssetView)
    requires
        distinct_ids(rows),
        work_fits(rows, work),
        reconciled_rows(rows, asset).len() <= usize::MAX,
    ensures
        ({
            let next = reconciled_rows(rows, asset);
            let plan = reconciled_work(rows, work, asset);
            let p = row_of(next, asset.identifier);
            &&& distinct_ids(next)
            &&& work_fits(next, plan)
            &&& rows.len() <= next.len() <= rows.len() + 1
            &&& forall|i: int|
                0 <= i < rows.len() ==> (#[trigger] next[i]).asset.identifier == rows[i].asset.identifier
            &&& forall|i: int|
                0 <= i < rows.len() && rows[i].asset.identifier != asset.identifier ==> #[trigger] next[i]
                    == rows[i]
            &&& 0 <= p < next.len()
            &&& next[p].asset.identifier == asset.identifier
            &&& next[p].asset.version == asset.version
            &&& (next[p].state is Downloaded) == (decide_spec(rows, asset) == Decision::Skip)
            &&& plan.contains(p as usize) == (decide_spec(rows, asset) != Decision::Skip)
            &&& forall|q: usize| work.contains(q) ==> plan.contains(q)
            &&& forall|q: usize| plan.contains(q) ==> work.contains(q) || q == p
            &&& decide_spec(rows, asset) == Decision::Skip ==> next == rows && plan == work
        }),
{
    let id = asset.identifier;
    let next = reconciled_rows(rows, asset);
    let plan = reconciled_work(rows, work, asset);
    let d = decide_spec(rows, asset);
    if d == Decision::Skip {
        let k = row_of(rows, id);
        assert(0 <= k < rows.len() && rows[k].asset.identifier == id);
        assert(!work.contains(k as usize)) by {
            if work.contains(k as usize) {
                let w = choose|w: int| 0 <= w < work.len() && work[w] == k as usize;
                assert(!(rows[work[w] as int].state is Downloaded));
            }
        }
    } else {
        let written = if d == Decision::Insert {
            PhotoView::pending(asset)
        } else {
            refreshed_row(rows[row_of(rows, id)], asset)
        };
        assert(next == upsert_row(rows, written));
        upsert_row_keeps_distinct(rows, written);
        let p = row_of(next, id);
        assert(0 <= p < next.len() && next[p].asset.identifier == id);
        assert(next[p] == written);
        if has_row(rows, id) {
            let k = row_of(rows, id);
            assert(0 <= k < rows.len() && rows[k].asset.identifier == id);
            assert(next == rows.update(k, written));
        } else {
            assert(next == rows.push(written));
            assert forall|i: int| 0 <= i < rows.len() implies rows[i].asset.identifier != id by {}
        }
        assert forall|i: int| 0 <= i < rows.len() implies (#[trigger] next[i]).asset.identifier
            == rows[i].asset.identifier by {}
        assert forall|i: int|
            0 <= i < rows.len() && rows[i].asset.identifier != id implies #[trigger] next[i] == rows[i] by {}
        assert(plan == queued(work, p as usize));
        assert(work_fits(next, plan)) by {
            assert forall|k: int| 0 <= k < plan.len() implies (#[trigger] plan[k]) < next.len() by {
                if k < work.len() {
                    assert(plan[k] == work[k]);
                }
            }
            assert forall|k: int, l: int| 0 <= k < l < plan.len() implies plan[k] != plan[l] by {
                if l < work.len() {
                    assert(plan[k] == work[k] && plan[l] == work[l]);
                } else {
                    assert(plan[k] == work[k]);
                    assert(!work.contains(p as usize));
                }
            }
            assert forall|k: int| 0 <= k < plan.len() implies !((#[trigger] next[plan[k] as int]).state
                is Downloaded) by {
                if k < work.len() && plan[k] != p as usize {
                    assert(plan[k] == work[k]);
                    let q = work[k] as int;
                    assert(!(rows[work[k] as int].state is Downloaded));
                    if has_row(rows, id) {
                        assert(next[q] == rows[q]);
                    } else {
                        assert(next[q] == rows[q]);
                    }
                }
            }
        }
        assert(plan.contains(p as usize)) by {
            if !work.contains(p as usize) {
                assert(plan[work.len() as int] == p as usize);
            }
        }
        assert forall|q: usize| work.contains(q) implies plan.contains(q) by {
            let w = choose|w: int| 0 <= w < work.len() && work[w] == q;
            assert(plan[w] == q);
        }
        assert forall|q: usize| plan.contains(q) implies work.contains(q) || q == p by {
            let w = choose|w: int| 0 <= w < plan.len() && plan[w] == q;
            if w < work.len() {
                assert(work[w] == q);
            }
        }
    }
}

/// The table after every asset of `page` is reconciled, the first one first.
pub open spec fn page_rows(rows: Seq<PhotoView>, page: Seq<AssetView>) -> Seq<PhotoView>
    decreases page.len(),
{
    if page.len() == 0 {
        rows
    } else {
        reconciled_rows(page_rows(rows, page.drop_last()), page.last())
    }
}

/// The work list after every asset of `page` is reconciled, the first one first.
pub open spec fn page_work(rows: Seq<PhotoView>, work: Seq<usize>, page: Seq<AssetView>) -> Seq<usize>
    decreases page.len(),
{
    if page.len() == 0 {
        work
    } else {
        reconciled_work(
            page_rows(rows, page.drop_last()),
            page_work(rows, work, page.drop_last()),
            page.last(),
        )
    }
}

/// The views of the assets of a page.
pub open spec fn page_view(page: Seq<RemoteAsset>) -> Seq<AssetView> {
    page.map_values(|a: RemoteAsset| a@)
}

/// Reconciles a page of the listing, asset by asset.
pub fn reconcile_page(index: &mut PhotoIndex, work: &mut Vec<usize>, page: &Vec<RemoteAsset>)
    requires
        old(index).wf(),
        work_fits(old(index)@, old(work)@),
    ensures
        final(index).wf(),
        work_fits(final(index)@, final(work)@),
        final(index)@ == page_rows(old(index)@, page_view(page@)),
        final(work)@ == page_work(old(index)@, old(work)@, page_view(page@)),
{
    let ghost listed = page_view(page@);
    let mut i: usize = 0;
    assert(listed.take(0) =~= Seq::<AssetView>::empty());
    while i < page.len()
        invariant
            i <= page.len(),
            listed == page_view(page@),
            index.wf(),
            work_fits(index@, work@),
            index@ == page_rows(old(index)@, listed.take(i as int)),
            work@ == page_work(old(index)@, old(work)@, listed.take(i as int)),
        decreases page.len() - i,
    {
        proof {
            assert(listed.take(i + 1).drop_last() =~= listed.take(i as int));
            assert(listed.take(i + 1).last() == page[i as int]@);
        }
        let ghost before = index@;
        let ghost plan = work@;
        reconcile_asset(index, work, &page[i]);
        proof {
            index.len_is_bounded();
            reconcile_step(before, plan, page[i as int]@);
        }
        i += 1;
    }
    assert(listed.take(i as int) =~= listed);
}

/// Reconciling one asset never shortens the table.
pub proof fn reconciled_rows_grow(rows: Seq<PhotoView>, asset: AssetView)
    ensures
        rows.len() <= reconciled_rows(rows, asset).len(),
{
    if has_row(rows, asset.identifier) {
        let k = row_of(rows, asset.identifier);
        assert(0 <= k < rows.len() && rows[k].asset.identifier == asset.identifier);
    }
}

/// Reconciling a page never shortens the table.
pub proof fn page_rows_grow(rows: Seq<PhotoView>, page: Seq<AssetView>)
    ensures
        rows.len() <= page_rows(rows, page).len(),
    decreases page.len(),
{
    if page.len() > 0 {
        page_rows_grow(rows, page.drop_last());
        reconciled_rows_grow(page_rows(rows, page.drop_last()), page.last());
    }
}

/// What reconciling a page does to a table and a work list that fit
/// together: they still fit, every listed identifier has exactly one row,
/// and a listed asset is queued exactly if its row is not on disk.
pub proof fn reconcile_page_properties(rows: Seq<PhotoView>, work: Seq<usize>, page: Seq<AssetView>)
    requires
        distinct_ids(rows),
        work_fits(rows, work),
        page_rows(rows, page).len() <= usize::MAX,
    ensures
        ({
            let next = page_rows(rows, page);
            let plan = page_work(rows, work, page);
            &&& distinct_ids(next)
            &&& work_fits(next, plan)
            &&& rows.len() <= next.len()
            &&& forall|i: int|
                0 <= i < rows.len() ==> (#[trigger] next[i]).asset.identifier == rows[i].asset.identifier
            &&& forall|j: int|
                0 <= j < page.len() ==> {
                    let p = row_of(next, (#[trigger] page[j]).identifier);
                    &&& has_row(next, page[j].identifier)
                    &&& 0 <= p < next.len()
                    &&& next[p].asset.identifier == page[j].identifier
                    &&& rows_with_id(next, page[j].identifier) == 1
                    &&& plan.contains(p as usize) == !(next[p].state is Downloaded)
                }
            &&& forall|q: usize| work.contains(q) ==> plan.contains(q)
        }),
    decreases page.len(),
{
    let next = page_rows(rows, page);
    let plan = page_work(rows, work, page);
    if page.len() > 0 {
        let init = page.drop_last();
        let asset = page.last();
        let mid = page_rows(rows, init);
        let mid_plan = page_work(rows, work, init);
        assert(next == reconciled_rows(mid, asset));
        assert(plan == reconciled_work(mid, mid_plan, asset));
        reconciled_rows_grow(mid, asset);
        reconcile_page_properties(rows, work, init);
        reconcile_step(mid, mid_plan, asset);
        let last = row_of(next, asset.identifier);
        assert forall|i: int| 0 <= i < rows.len() implies (#[trigger] next[i]).asset.identifier
            == rows[i].asset.identifier by {
            assert(mid[i].asset.identifier == rows[i].asset.identifier);
        }
        assert forall|j: int| 0 <= j < page.len() implies ({
            let p = row_of(next, (#[trigger] page[j]).identifier);
            &&& has_row(next, page[j].identifier)
            &&& 0 <= p < next.len()
            &&& next[p].asset.identifier == page[j].identifier
            &&& rows_with_id(next, page[j].identifier) == 1
            &&& plan.contains(p as usize) == !(next[p].state is Downloaded)
        }) by {
            let id = page[j].identifier;
            if j < init.len() && id != asset.identifier {
                assert(init[j] == page[j]);
                let m = row_of(mid, init[j].identifier);
                assert(next[m].asset.identifier == mid[m].asset.identifier);
                row_of_is_unique(next, m);
                present_id_counts_one(next, id);
                assert(next[m] == mid[m]);
                assert(mid_plan.contains(m as usize) ==> plan.contains(m as usize));
                if plan.contains(m as usize) && !mid_plan.contains(m as usize) {
                    assert(m as usize == last);
                }
            } else {
                assert(id == asset.identifier);
                present_id_counts_one(next, id);
            }
        }
        assert forall|q: usize| work.contains(q) implies plan.contains(q) by {
            assert(mid_plan.contains(q));
        }
    } else {
        assert forall|q: usize| work.contains(q) implies plan.contains(q) by {}
    }
}

} // verus!
