//! Totals over the photo table.

use vstd::prelude::*;
use crate::photo::PhotoView;

verus! {

/// The number of rows whose photo is on disk.
pub open spec fn downloaded_count(rows: Seq<PhotoView>) -> nat
    decreases rows.len(),
{
    if rows.len() == 0 {
        0
    } else {
        downloaded_count(rows.drop_last()) + if rows.last().state is Downloaded {
            1nat
        } else {
            0nat
        }
    }
}

/// The number of rows whose last attempt failed.
pub open spec fn failed_count(rows: Seq<PhotoView>) -> nat
    decreases rows.len(),
{
    if rows.len() == 0 {
        0
    } else {
        failed_count(rows.drop_last()) + if rows.last().state is Failed {
            1nat
        } else {
            0nat
        }
    }
}

/// The sizes of all rows, added up.
pub open spec fn byte_sum(rows: Seq<PhotoView>) -> nat
    decreases rows.len(),
{
    if rows.len() == 0 {
        0
    } else {
        byte_sum(rows.drop_last()) + rows.last().asset.bytes as nat
    }
}

/// The sizes of the rows whose photo is on disk, added up.
pub open spec fn downloaded_byte_sum(rows: Seq<PhotoView>) -> nat
    decreases rows.len(),
{
    if rows.len() == 0 {
        0
    } else {
        downloaded_byte_sum(rows.drop_last()) + if rows.last().state is Downloaded {
            rows.last().asset.bytes as nat
        } else {
            0nat
        }
    }
}

/// The share of `part` in `whole`, in hundredths of a percent, rounded down;
/// zero where `whole` is zero.
pub open spec fn share_permyriad(part: nat, whole: nat) -> nat {
    if whole == 0 {
        0
    } else {
        (part * 10000) / whole
    }
}

/// What the index reports of itself.
#[derive(Clone, Copy, Debug, PartialEq, Eq, Structural)]
pub struct DownloadStatistics {
    pub total_photos: usize,
    pub downloaded_photos: usize,
    pub failed_photos: usize,
    pub total_bytes: u128,
    pub downloaded_bytes: u128,
    /// Downloaded photos among all photos, in hundredths of a percent.
    pub download_permyriad: u32,
}

/// The totals are bounded by the number of rows and by the largest size a row can have.
pub proof fn totals_are_bounded(rows: Seq<PhotoView>)
    ensures
        downloaded_count(rows) + failed_count(rows) <= rows.len(),
        downloaded_byte_sum(rows) <= byte_sum(rows),
        byte_sum(rows) <= rows.len() * u64::MAX,
    decreases rows.len(),
{
    if rows.len() > 0 {
        let init = rows.drop_last();
        totals_are_bounded(init);
        assert(rows.last() == rows[rows.len() - 1]);
        assert(byte_sum(rows) <= rows.len() * u64::MAX) by (nonlinear_arith)
            requires
                byte_sum(rows) <= (rows.len() - 1) * u64::MAX + u64::MAX,
        ;
    }
}

/// The share of a part in a whole that holds it is at most ten thousand.
pub proof fn share_is_bounded(part: nat, whole: nat)
    requires
        part <= whole,
    ensures
        share_permyriad(part, whole) <= 10000,
        whole > 0 && part == whole ==> share_permyriad(part, whole) == 10000,
{
    if whole > 0 {
        assert((part * 10000) / whole <= 10000) by (nonlinear_arith)
            requires
                part <= whole,
                whole > 0,
        ;
        if part == whole {
            assert((whole * 10000) / whole == 10000) by (nonlinear_arith)
                requires
                    whole > 0,
            ;
        }
    }
}

/// One if the row is on disk, else zero.
pub open spec fn on_disk(row: PhotoView) -> nat {
    if row.state is Downloaded {
        1
    } else {
        0
    }
}

/// One if the last attempt on the row failed, else zero.
pub open spec fn in_failure(row: PhotoView) -> nat {
    if row.state is Failed {
        1
    } else {
        0
    }
}

/// Writing over one row changes the counts by what that row counted before and counts after.
pub proof fn counts_after_update(rows: Seq<PhotoView>, position: int, row: PhotoView)
    requires
        0 <= position < rows.len(),
    ensures
        downloaded_count(rows.update(position, row)) + on_disk(rows[position]) == downloaded_count(rows)
            + on_disk(row),
        failed_count(rows.update(position, row)) + in_failure(rows[position]) == failed_count(rows)
            + in_failure(row),
    decreases rows.len(),
{
    let next = rows.update(position, row);
    let n = rows.len() - 1;
    assert(next.last() == next[n] && rows.last() == rows[n]);
    if position == n {
        assert(next.drop_last() =~= rows.drop_last());
    } else {
        assert(next.drop_last() =~= rows.drop_last().update(position, row));
        assert(rows.drop_last()[position] == rows[position]);
        counts_after_update(rows.drop_last(), position, row);
    }
}

/// A table in which no download has finished counts nothing on disk and nothing failed.
pub proof fn untouched_counts_nothing(rows: Seq<PhotoView>)
    requires
        forall|i: int| 0 <= i < rows.len() ==> (#[trigger] rows[i]).state is NotAttempted,
    ensures
        downloaded_count(rows) == 0,
        failed_count(rows) == 0,
    decreases rows.len(),
{
    if rows.len() > 0 {
        let init = rows.drop_last();
        assert forall|i: int| 0 <= i < init.len() implies (#[trigger] init[i]).state is NotAttempted by {
            assert(init[i] == rows[i]);
        }
        untouched_counts_nothing(init);
        assert(rows.last() == rows[rows.len() - 1]);
    }
}

} // verus!
