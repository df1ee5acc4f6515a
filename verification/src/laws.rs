//! What holds of reconciliation and of whole runs.

use vstd::prelude::*;
use crate::asset::AssetView;
use crate::photo::PhotoView;
use crate::reconcile::{
    decide_spec, page_rows, page_rows_grow, page_work, reconcile_page_properties, reconcile_step,
    reconciled_rows, reconciled_rows_grow, Decision,
};
use crate::rows::{distinct_ids, has_row, present_id_counts_one, row_of, row_of_is_unique, rows_with_id};

verus! {

/// A listing gives each identifier one version: two entries with the same
/// identifier have the same version stamp.
pub open spec fn one_version_each(page: Seq<AssetView>) -> bool {
    forall|j: int, k: int|
        0 <= j < page.len() && 0 <= k < page.len() && (#[trigger] page[j]).identifier == (
        #[trigger] page[k]).identifier ==> page[j].version == page[k].version
}

/// An asset listed on two consecutive pages, or twice on one, has exactly
/// one row after both pages are reconciled, and no identifier has two.
pub proof fn two_pages_one_row_each(rows: Seq<PhotoView>, first: Seq<AssetView>, second: Seq<AssetView>)
    requires
        distinct_ids(rows),
        page_rows(page_rows(rows, first), second).len() <= usize::MAX,
    ensures
        distinct_ids(page_rows(page_rows(rows, first), second)),
        forall|j: int|
            0 <= j < first.len() ==> rows_with_id(
                page_rows(page_rows(rows, first), second),
                (#[trigger] first[j]).identifier,
            ) == 1,
        forall|j: int|
            0 <= j < second.len() ==> rows_with_id(
                page_rows(page_rows(rows, first), second),
                (#[trigger] second[j]).identifier,
            ) == 1,
{
    let mid = page_rows(rows, first);
    let last = page_rows(mid, second);
    let none = Seq::<usize>::empty();
    page_rows_grow(mid, second);
    reconcile_page_properties(rows, none, first);
    reconcile_page_properties(mid, page_work(rows, none, first), second);
    assert forall|j: int| 0 <= j < first.len() implies rows_with_id(last, (#[trigger] first[j]).identifier)
        == 1 by {
        let p = row_of(mid, first[j].identifier);
        assert(0 <= p < mid.len() && mid[p].asset.identifier == first[j].identifier);
        assert(last[p].asset.identifier == mid[p].asset.identifier);
        row_of_is_unique(last, p);
        present_id_counts_one(last, first[j].identifier);
    }
    assert forall|j: int| 0 <= j < second.len() implies rows_with_id(
        last,
        (#[trigger] second[j]).identifier,
    ) == 1 by {}
}

/// Which rows are on disk after a page is reconciled: those that were on
/// disk before and that the page does not list at another version. Such a row is left as it was.
pub proof fn page_keeps_rows_on_disk(rows: Seq<PhotoView>, page: Seq<AssetView>)
    requires
        distinct_ids(rows),
        page_rows(rows, page).len() <= usize::MAX,
    ensures
        forall|i: int|
            0 <= i < page_rows(rows, page).len() ==> ((#[trigger] page_rows(rows, page)[i]).state
                is Downloaded) == (i < rows.len() && rows[i].state is Downloaded && forall|j: int|
                0 <= j < page.len() && (#[trigger] page[j]).identifier == rows[i].asset.identifier
                    ==> page[j].version == rows[i].asset.version),
        forall|i: int|
            0 <= i < rows.len() && (#[trigger] page_rows(rows, page)[i]).state is Downloaded ==> page_rows(
                rows,
                page,
            )[i] == rows[i],
    decreases page.len(),
{
    let next = page_rows(rows, page);
    let none = Seq::<usize>::empty();
    if page.len() > 0 {
        let init = page.drop_last();
        let asset = page.last();
        let mid = page_rows(rows, init);
        assert(next == reconciled_rows(mid, asset));
        reconciled_rows_grow(mid, asset);
        page_rows_grow(rows, init);
        page_keeps_rows_on_disk(rows, init);
        reconcile_page_properties(rows, none, init);
        reconcile_step(mid, page_work(rows, none, init), asset);
        let p = row_of(next, asset.identifier);
        let skipped = decide_spec(mid, asset) == Decision::Skip;
        assert(page[page.len() - 1] == asset);
        assert forall|i: int| 0 <= i < next.len() implies ((#[trigger] next[i]).state is Downloaded) == (i
            < rows.len() && rows[i].state is Downloaded && forall|j: int|
            0 <= j < page.len() && (#[trigger] page[j]).identifier == rows[i].asset.identifier
                ==> page[j].version == rows[i].asset.version) by {
            let on_disk_before = i < rows.len() && rows[i].state is Downloaded && forall|j: int|
                0 <= j < init.len() && (#[trigger] init[j]).identifier == rows[i].asset.identifier
                    ==> init[j].version == rows[i].asset.version;
            let on_disk_after = i < rows.len() && rows[i].state is Downloaded && forall|j: int|
                0 <= j < page.len() && (#[trigger] page[j]).identifier == rows[i].asset.identifier
                    ==> page[j].version == rows[i].asset.version;
            if next[i].asset.identifier != asset.identifier {
                if i < mid.len() {
                    assert(next[i].asset.identifier == mid[i].asset.identifier);
                    assert(next[i] == mid[i]);
                    assert((mid[i].state is Downloaded) == on_disk_before);
                    if i < rows.len() {
                        assert(mid[i].asset.identifier == rows[i].asset.identifier);
                    }
                    if on_disk_before {
                        assert forall|j: int|
                            0 <= j < page.len() && (#[trigger] page[j]).identifier
                                == rows[i].asset.identifier implies page[j].version
                            == rows[i].asset.version by {
                            if j < init.len() {
                                assert(init[j] == page[j]);
                            }
                        }
                    }
                    if on_disk_after {
                        assert forall|j: int|
                            0 <= j < init.len() && (#[trigger] init[j]).identifier
                                == rows[i].asset.identifier implies init[j].version
                            == rows[i].asset.version by {
                            assert(init[j] == page[j]);
                        }
                    }
                } else {
                    row_of_is_unique(next, i);
                    assert(next[p].asset.identifier == asset.identifier);
                }
            } else {
                row_of_is_unique(next, i);
                assert(i == p);
                if skipped {
                    assert(next == mid);
                    let m = row_of(mid, asset.identifier);
                    assert(0 <= m < mid.len() && mid[m].asset.identifier == asset.identifier);
                    row_of_is_unique(mid, m);
                    assert(m == p);
                    assert(mid[p].state is Downloaded && mid[p].asset.version == asset.version);
                    assert(on_disk_before);
                    assert(mid[p] == rows[p]);
                    assert forall|j: int|
                        0 <= j < page.len() && (#[trigger] page[j]).identifier
                            == rows[i].asset.identifier implies page[j].version
                        == rows[i].asset.version by {
                        if j < init.len() {
                            assert(init[j] == page[j]);
                        }
                    }
                } else {
                    assert(!(next[p].state is Downloaded));
                    if on_disk_after {
                        assert forall|j: int|
                            0 <= j < init.len() && (#[trigger] init[j]).identifier
                                == rows[i].asset.identifier implies init[j].version
                            == rows[i].asset.version by {
                            assert(init[j] == page[j]);
                        }
                        assert(mid[i].state is Downloaded);
                        assert(mid[i] == rows[i]);
                        assert(mid[i].asset.identifier == asset.identifier);
                        row_of_is_unique(mid, i);
                        assert(page[page.len() - 1].identifier == rows[i].asset.identifier);
                        assert(asset.version == rows[i].asset.version);
                        assert(mid[i].is_current(asset));
                        assert(false);
                    }
                }
            }
        }
        assert forall|i: int| 0 <= i < rows.len() && (#[trigger] next[i]).state is Downloaded implies next[i]
            == rows[i] by {
            if next[i].asset.identifier != asset.identifier {
                assert(next[i].asset.identifier == mid[i].asset.identifier);
                assert(next[i] == mid[i]);
            } else {
                row_of_is_unique(next, i);
                assert(skipped);
            }
        }
    }
}

/// Whether `asset` is on disk in `rows` at the version that the listing gives it.
pub open spec fn on_disk_as_listed(rows: Seq<PhotoView>, asset: AssetView) -> bool {
    has_row(rows, asset.identifier) && rows[row_of(rows, asset.identifier)].is_current(asset)
}

/// Whether the listing gives the identifier `id` one version: any two of
/// its entries with that identifier have the same version stamp.
pub open spec fn listed_at_one_version(page: Seq<AssetView>, id: Seq<char>) -> bool {
    forall|k: int, l: int|
        0 <= k < page.len() && 0 <= l < page.len() && (#[trigger] page[k]).identifier == id && (
        #[trigger] page[l]).identifier == id ==> page[k].version == page[l].version
}

/// Whether the photo with the identifier `id` is on disk in `rows` and the
/// listing gives it no other version than the one on disk.
pub open spec fn stays_on_disk(rows: Seq<PhotoView>, page: Seq<AssetView>, id: Seq<char>) -> bool {
    &&& has_row(rows, id)
    &&& rows[row_of(rows, id)].state is Downloaded
    &&& forall|k: int|
        0 <= k < page.len() && (#[trigger] page[k]).identifier == id ==> page[k].version == rows[row_of(
            rows,
            id,
        )].asset.version
}

/// A run downloads exactly what is new, changed, failed or not yet
/// attempted. After a listing of any length is reconciled against a table,
/// with nothing queued before: a listed asset is queued if and only if it was
/// not on disk at the version, or versions, that the listing gives it; a row
/// that was, is left as it was; and nothing is queued but listed assets.
/// Where the listing gives the asset one version, that is: it is queued if
/// and only if it was not on disk at the listed version.
pub proof fn queued_iff_not_on_disk(rows: Seq<PhotoView>, page: Seq<AssetView>)
    requires
        distinct_ids(rows),
        page_rows(rows, page).len() <= usize::MAX,
    ensures
        ({
            let next = page_rows(rows, page);
            let plan = page_work(rows, Seq::<usize>::empty(), page);
            &&& forall|j: int|
                0 <= j < page.len() ==> {
                    let p = row_of(next, (#[trigger] page[j]).identifier);
                    &&& 0 <= p < next.len()
                    &&& next[p].asset.identifier == page[j].identifier
                    &&& plan.contains(p as usize) == !stays_on_disk(rows, page, page[j].identifier)
                    &&& stays_on_disk(rows, page, page[j].identifier) ==> next[p] == rows[row_of(
                        rows,
                        page[j].identifier,
                    )]
                    &&& listed_at_one_version(page, page[j].identifier) ==> stays_on_disk(
                        rows,
                        page,
                        page[j].identifier,
                    ) == on_disk_as_listed(rows, page[j])
                }
            &&& forall|q: usize|
                plan.contains(q) ==> exists|j: int|
                    0 <= j < page.len() && q == row_of(next, (#[trigger] page[j]).identifier)
        }),
{
    let next = page_rows(rows, page);
    let none = Seq::<usize>::empty();
    let plan = page_work(rows, none, page);
    reconcile_page_properties(rows, none, page);
    page_keeps_rows_on_disk(rows, page);
    assert forall|j: int| 0 <= j < page.len() implies ({
        let p = row_of(next, (#[trigger] page[j]).identifier);
        &&& 0 <= p < next.len()
        &&& next[p].asset.identifier == page[j].identifier
        &&& plan.contains(p as usize) == !stays_on_disk(rows, page, page[j].identifier)
        &&& stays_on_disk(rows, page, page[j].identifier) ==> next[p] == rows[row_of(rows, page[j].identifier)]
        &&& listed_at_one_version(page, page[j].identifier) ==> stays_on_disk(
            rows,
            page,
            page[j].identifier,
        ) == on_disk_as_listed(rows, page[j])
    }) by {
        let id = page[j].identifier;
        let p = row_of(next, id);
        assert(0 <= p < next.len() && next[p].asset.identifier == id);
        assert(plan.contains(p as usize) == !(next[p].state is Downloaded));
        if p < rows.len() {
            assert(next[p].asset.identifier == rows[p].asset.identifier);
            row_of_is_unique(rows, p);
        }
        if has_row(rows, id) {
            let r = row_of(rows, id);
            assert(0 <= r < rows.len() && rows[r].asset.identifier == id);
            assert(next[r].asset.identifier == rows[r].asset.identifier);
            row_of_is_unique(next, r);
            assert(r == p);
        }
        let on_disk_after = p < rows.len() && rows[p].state is Downloaded && forall|k: int|
            0 <= k < page.len() && (#[trigger] page[k]).identifier == rows[p].asset.identifier
                ==> page[k].version == rows[p].asset.version;
        assert((next[p].state is Downloaded) == on_disk_after);
        assert(on_disk_after == stays_on_disk(rows, page, id));
        if listed_at_one_version(page, id) {
            if stays_on_disk(rows, page, id) {
                assert(page[j].version == rows[p].asset.version);
            }
            if on_disk_as_listed(rows, page[j]) {
                assert forall|k: int|
                    0 <= k < page.len() && (#[trigger] page[k]).identifier == id implies page[k].version
                    == rows[p].asset.version by {
                    assert(page[k].version == page[j].version);
                }
            }
        }
    }
    queued_rows_are_listed(rows, page);
}

/// With nothing queued before, reconciling a listing queues only rows of listed assets.
pub proof fn queued_rows_are_listed(rows: Seq<PhotoView>, page: Seq<AssetView>)
    requires
        distinct_ids(rows),
        page_rows(rows, page).len() <= usize::MAX,
    ensures
        forall|q: usize|
            page_work(rows, Seq::<usize>::empty(), page).contains(q) ==> exists|j: int|
                0 <= j < page.len() && q == row_of(page_rows(rows, page), (#[trigger] page[j]).identifier),
    decreases page.len(),
{
    let next = page_rows(rows, page);
    let none = Seq::<usize>::empty();
    let plan = page_work(rows, none, page);
    if page.len() > 0 {
        let init = page.drop_last();
        let asset = page.last();
        let mid = page_rows(rows, init);
        let mid_plan = page_work(rows, none, init);
        reconciled_rows_grow(mid, asset);
        queued_rows_are_listed(rows, init);
        reconcile_page_properties(rows, none, init);
        reconcile_step(mid, mid_plan, asset);
        assert(page[page.len() - 1] == asset);
        assert forall|q: usize| plan.contains(q) implies exists|j: int|
            0 <= j < page.len() && q == row_of(next, (#[trigger] page[j]).identifier) by {
            if mid_plan.contains(q) {
                let j = choose|j: int| 0 <= j < init.len() && q == row_of(mid, (#[trigger] init[j]).identifier);
                assert(init[j] == page[j]);
                let m = row_of(mid, init[j].identifier);
                assert(0 <= m < mid.len() && mid[m].asset.identifier == init[j].identifier);
                assert(next[m].asset.identifier == mid[m].asset.identifier);
                row_of_is_unique(next, m);
                assert(q == row_of(next, page[j].identifier));
            } else {
                assert(q == row_of(next, page[page.len() - 1].identifier));
            }
        }
    } else {
        assert forall|q: usize| plan.contains(q) implies false by {
            assert(plan =~= none);
        }
    }
}

/// A listing whose assets are all on disk at the listed versions queues no
/// download and changes no row: running again right after a run in which
/// every download succeeded downloads nothing.
pub proof fn nothing_queued_when_all_on_disk(rows: Seq<PhotoView>, page: Seq<AssetView>)
    requires
        distinct_ids(rows),
        forall|j: int| 0 <= j < page.len() ==> on_disk_as_listed(rows, #[trigger] page[j]),
    ensures
        page_rows(rows, page) == rows,
        page_work(rows, Seq::<usize>::empty(), page) == Seq::<usize>::empty(),
    decreases page.len(),
{
    if page.len() > 0 {
        let init = page.drop_last();
        assert forall|j: int| 0 <= j < init.len() implies on_disk_as_listed(rows, #[trigger] init[j]) by {
            assert(init[j] == page[j]);
        }
        nothing_queued_when_all_on_disk(rows, init);
        assert(on_disk_as_listed(rows, page[page.len() - 1]));
        assert(decide_spec(rows, page.last()) == Decision::Skip);
    }
}

/// After a listing that gives each identifier one version is reconciled,
/// the row of every listed asset carries the listed version.
pub proof fn listed_rows_carry_listed_versions(rows: Seq<PhotoView>, page: Seq<AssetView>)
    requires
        distinct_ids(rows),
        one_version_each(page),
        page_rows(rows, page).len() <= usize::MAX,
    ensures
        forall|j: int|
            0 <= j < page.len() ==> page_rows(rows, page)[row_of(
                page_rows(rows, page),
                (#[trigger] page[j]).identifier,
            )].asset.version == page[j].version,
    decreases page.len(),
{
    let next = page_rows(rows, page);
    let none = Seq::<usize>::empty();
    if page.len() > 0 {
        let init = page.drop_last();
        let asset = page.last();
        let mid = page_rows(rows, init);
        reconciled_rows_grow(mid, asset);
        assert(page[page.len() - 1] == asset);
        assert forall|j: int, k: int|
            0 <= j < init.len() && 0 <= k < init.len() && (#[trigger] init[j]).identifier == (
            #[trigger] init[k]).identifier implies init[j].version == init[k].version by {
            assert(init[j] == page[j] && init[k] == page[k]);
        }
        listed_rows_carry_listed_versions(rows, init);
        reconcile_page_properties(rows, none, init);
        reconcile_step(mid, page_work(rows, none, init), asset);
        assert forall|j: int| 0 <= j < page.len() implies next[row_of(
            next,
            (#[trigger] page[j]).identifier,
        )].asset.version == page[j].version by {
            if page[j].identifier == asset.identifier {
                assert(page[j].version == page[page.len() - 1].version);
            } else {
                assert(init[j] == page[j]);
                let m = row_of(mid, init[j].identifier);
                assert(0 <= m < mid.len() && mid[m].asset.identifier == init[j].identifier);
                assert(next[m].asset.identifier == mid[m].asset.identifier);
                assert(next[m] == mid[m]);
                row_of_is_unique(next, m);
            }
        }
    }
}

/// Reconciling two pages in turn is reconciling one listing that holds the
/// assets of the first and then those of the second.
pub proof fn pages_in_turn_are_one_listing(
    rows: Seq<PhotoView>,
    work: Seq<usize>,
    first: Seq<AssetView>,
    second: Seq<AssetView>,
)
    ensures
        page_rows(rows, first + second) == page_rows(page_rows(rows, first), second),
        page_work(rows, work, first + second) == page_work(
            page_rows(rows, first),
            page_work(rows, work, first),
            second,
        ),
    decreases second.len(),
{
    if second.len() == 0 {
        assert(first + second =~= first);
    } else {
        assert((first + second).drop_last() =~= first + second.drop_last());
        assert((first + second).last() == second.last());
        pages_in_turn_are_one_listing(rows, work, first, second.drop_last());
    }
}

} // verus!
