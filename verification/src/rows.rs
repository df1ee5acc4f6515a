//! The photo table as a sequence of rows keyed by identifier.

use vstd::prelude::*;
use crate::photo::{PhotoView, StateView};

verus! {

/// Whether some row has the identifier `id`.
pub open spec fn has_row(rows: Seq<PhotoView>, id: Seq<char>) -> bool {
    exists|i: int| 0 <= i < rows.len() && #[trigger] rows[i].asset.identifier == id
}

/// The position of a row with the identifier `id`, where there is one.
pub open spec fn row_of(rows: Seq<PhotoView>, id: Seq<char>) -> int {
    choose|i: int| 0 <= i < rows.len() && #[trigger] rows[i].asset.identifier == id
}

/// No two rows share an identifier.
pub open spec fn distinct_ids(rows: Seq<PhotoView>) -> bool {
    forall|i: int, j: int|
        0 <= i < j < rows.len() ==> #[trigger] rows[i].asset.identifier != #[trigger] rows[j].asset.identifier
}

/// How many rows have the identifier `id`.
pub open spec fn rows_with_id(rows: Seq<PhotoView>, id: Seq<char>) -> nat
    decreases rows.len(),
{
    if rows.len() == 0 {
        0
    } else {
        rows_with_id(rows.drop_last(), id) + if rows.last().asset.identifier == id {
            1nat
        } else {
            0nat
        }
    }
}

/// The table after `photo` is inserted, or written over the row that has its identifier.
pub open spec fn upsert_row(rows: Seq<PhotoView>, photo: PhotoView) -> Seq<PhotoView> {
    if has_row(rows, photo.asset.identifier) {
        rows.update(row_of(rows, photo.asset.identifier), photo)
    } else {
        rows.push(photo)
    }
}

/// The table after the row with the identifier `id`, if any, is given the state `state`.
pub open spec fn with_state(rows: Seq<PhotoView>, id: Seq<char>, state: StateView) -> Seq<PhotoView> {
    if has_row(rows, id) {
        let i = row_of(rows, id);
        rows.update(i, PhotoView { asset: rows[i].asset, state })
    } else {
        rows
    }
}

/// The table after each row of `batch` is written into it, the first one first.
pub open spec fn upsert_all(rows: Seq<PhotoView>, batch: Seq<PhotoView>) -> Seq<PhotoView>
    decreases batch.len(),
{
    if batch.len() == 0 {
        rows
    } else {
        upsert_row(upsert_all(rows, batch.drop_last()), batch.last())
    }
}

/// Whether a file of this length, or no file where there is no length, can
/// stand for a downloaded photo: it has to be there and not be empty.
pub open spec fn file_is_usable(file_len: Option<u64>) -> bool {
    file_len matches Some(n) && n > 0
}

/// The table after the file of the row with the identifier `id` was looked
/// for: a row that counts as downloaded while its file is missing or empty
/// is flagged as failed; any other row stays as it is.
pub open spec fn reflagged(rows: Seq<PhotoView>, id: Seq<char>, file_len: Option<u64>) -> Seq<PhotoView> {
    if has_row(rows, id) && rows[row_of(rows, id)].state is Downloaded && !file_is_usable(file_len) {
        with_state(rows, id, StateView::Failed { reason: "Local file is missing or empty"@ })
    } else {
        rows
    }
}

/// In a table without duplicates the position of an identifier is the only one that holds it.
pub proof fn row_of_is_unique(rows: Seq<PhotoView>, i: int)
    requires
        distinct_ids(rows),
        0 <= i < rows.len(),
    ensures
        has_row(rows, rows[i].asset.identifier),
        row_of(rows, rows[i].asset.identifier) == i,
{
    let id = rows[i].asset.identifier;
    let j = row_of(rows, id);
    assert(0 <= j < rows.len() && rows[j].asset.identifier == id);
    if j < i {
        assert(rows[j].asset.identifier != rows[i].asset.identifier);
    } else if i < j {
        assert(rows[i].asset.identifier != rows[j].asset.identifier);
    }
}

/// An identifier occurs as often as zero times where no row has it.
pub proof fn absent_id_counts_zero(rows: Seq<PhotoView>, id: Seq<char>)
    requires
        !has_row(rows, id),
    ensures
        rows_with_id(rows, id) == 0,
    decreases rows.len(),
{
    if rows.len() > 0 {
        let init = rows.drop_last();
        assert(rows.last() == rows[rows.len() - 1]);
        assert(rows[rows.len() - 1].asset.identifier != id);
        assert forall|i: int| 0 <= i < init.len() implies #[trigger] init[i].asset.identifier != id by {
            assert(init[i] == rows[i]);
        }
        absent_id_counts_zero(init, id);
    }
}

/// In a table without duplicates an identifier that occurs, occurs exactly once.
pub proof fn present_id_counts_one(rows: Seq<PhotoView>, id: Seq<char>)
    requires
        distinct_ids(rows),
        has_row(rows, id),
    ensures
        rows_with_id(rows, id) == 1,
    decreases rows.len(),
{
    let k = row_of(rows, id);
    let init = rows.drop_last();
    let n = rows.len() - 1;
    assert forall|i: int, j: int| 0 <= i < j < init.len() implies #[trigger] init[i].asset.identifier
        != #[trigger] init[j].asset.identifier by {
        assert(init[i] == rows[i] && init[j] == rows[j]);
    }
    if rows[n].asset.identifier == id {
        assert forall|i: int| 0 <= i < init.len() implies #[trigger] init[i].asset.identifier != id by {
            assert(init[i] == rows[i]);
            assert(rows[i].asset.identifier != rows[n].asset.identifier);
        }
        absent_id_counts_zero(init, id);
    } else {
        assert(k < n);
        assert(init[k] == rows[k]);
        assert(init[k].asset.identifier == id);
        present_id_counts_one(init, id);
    }
}

/// Writing a row into a table without duplicates leaves it without duplicates,
/// with the written row at the position of its identifier.
pub proof fn upsert_row_keeps_distinct(rows: Seq<PhotoView>, photo: PhotoView)
    requires
        distinct_ids(rows),
    ensures
        distinct_ids(upsert_row(rows, photo)),
        has_row(upsert_row(rows, photo), photo.asset.identifier),
        upsert_row(rows, photo)[row_of(upsert_row(rows, photo), photo.asset.identifier)] == photo,
        rows_with_id(upsert_row(rows, photo), photo.asset.identifier) == 1,
{
    let id = photo.asset.identifier;
    let next = upsert_row(rows, photo);
    if has_row(rows, id) {
        let k = row_of(rows, id);
        assert(0 <= k < rows.len() && rows[k].asset.identifier == id);
        assert(next == rows.update(k, photo));
        assert forall|i: int, j: int| 0 <= i < j < next.len() implies #[trigger] next[i].asset.identifier
            != #[trigger] next[j].asset.identifier by {
            assert(next[i].asset.identifier == rows[i].asset.identifier);
            assert(next[j].asset.identifier == rows[j].asset.identifier);
            assert(rows[i].asset.identifier != rows[j].asset.identifier);
        }
        assert(next[k].asset.identifier == id);
        row_of_is_unique(next, k);
    } else {
        let n = rows.len() as int;
        assert forall|i: int, j: int| 0 <= i < j < next.len() implies #[trigger] next[i].asset.identifier
            != #[trigger] next[j].asset.identifier by {
            assert(next[i] == rows[i]);
            if j < n {
                assert(next[j] == rows[j]);
                assert(rows[i].asset.identifier != rows[j].asset.identifier);
            } else {
                assert(next[j] == photo);
                assert(rows[i].asset.identifier != id);
            }
        }
        assert(next[n].asset.identifier == id);
        row_of_is_unique(next, n);
    }
    present_id_counts_one(next, id);
}

/// Writing the same row twice is writing it once.
pub proof fn upsert_twice_is_upsert_once(rows: Seq<PhotoView>, photo: PhotoView)
    requires
        distinct_ids(rows),
    ensures
        upsert_row(upsert_row(rows, photo), photo) == upsert_row(rows, photo),
{
    let once = upsert_row(rows, photo);
    upsert_row_keeps_distinct(rows, photo);
    let k = row_of(once, photo.asset.identifier);
    assert(0 <= k < once.len() && once[k].asset.identifier == photo.asset.identifier);
    assert(once.update(k, photo) =~= once);
}

/// Changing the state of a row keeps every identifier where it was.
pub proof fn with_state_keeps_ids(rows: Seq<PhotoView>, id: Seq<char>, state: StateView)
    ensures
        with_state(rows, id, state).len() == rows.len(),
        forall|i: int|
            0 <= i < rows.len() ==> (#[trigger] with_state(rows, id, state)[i]).asset == rows[i].asset,
        distinct_ids(rows) ==> distinct_ids(with_state(rows, id, state)),
        forall|other: Seq<char>| has_row(with_state(rows, id, state), other) == has_row(rows, other),
{
    let next = with_state(rows, id, state);
    if has_row(rows, id) {
        let k = row_of(rows, id);
        assert(0 <= k < rows.len() && rows[k].asset.identifier == id);
        assert(next == rows.update(k, PhotoView { asset: rows[k].asset, state }));
    }
    assert(next.len() == rows.len());
    assert forall|i: int| 0 <= i < rows.len() implies (#[trigger] next[i]).asset == rows[i].asset by {}
    assert forall|other: Seq<char>| has_row(next, other) == has_row(rows, other) by {
        if has_row(rows, other) {
            let i = row_of(rows, other);
            assert(0 <= i < rows.len() && rows[i].asset.identifier == other);
            assert(next[i].asset.identifier == other);
        }
        if has_row(next, other) {
            let i = row_of(next, other);
            assert(0 <= i < next.len() && next[i].asset.identifier == other);
            assert(rows[i].asset.identifier == other);
        }
    }
    if distinct_ids(rows) {
        assert forall|i: int, j: int| 0 <= i < j < next.len() implies #[trigger] next[i].asset.identifier
            != #[trigger] next[j].asset.identifier by {
            assert(next[i].asset.identifier == rows[i].asset.identifier);
            assert(next[j].asset.identifier == rows[j].asset.identifier);
            assert(rows[i].asset.identifier != rows[j].asset.identifier);
        }
    }
}

} // verus!
