//! The local index: every photo seen so far, with its download state.

use vstd::prelude::*;
use crate::photo::{DownloadState, IndexedPhoto, PhotoView};
use crate::rows::{
    distinct_ids, file_is_usable, has_row, reflagged, row_of, row_of_is_unique, upsert_all, upsert_row,
    upsert_row_keeps_distinct, with_state, with_state_keeps_ids,
};
use crate::stats::{
    byte_sum, downloaded_byte_sum, downloaded_count, failed_count, share_is_bounded, share_permyriad,
    totals_are_bounded, DownloadStatistics,
};

verus! {

/// The photo table. No two rows share an identifier.
pub struct PhotoIndex {
    photos: Vec<IndexedPhoto>,
}

impl View for PhotoIndex {
    type V = Seq<PhotoView>;

    closed spec fn view(&self) -> Seq<PhotoView> {
        self.photos.deep_view()
    }
}

impl DeepView for IndexedPhoto {
    type V = PhotoView;

    open spec fn deep_view(&self) -> PhotoView {
        self@
    }
}

impl PhotoIndex {
    /// The table holds each identifier at most once.
    pub open spec fn wf(&self) -> bool {
        distinct_ids(self@)
    }

    /// An index without rows.
    pub fn new() -> (r: PhotoIndex)
        ensures
            r@ == Seq::<PhotoView>::empty(),
            r.wf(),
    {
        let r = PhotoIndex { photos: Vec::new() };
        assert(r@ =~= Seq::<PhotoView>::empty());
        r
    }

    /// The number of rows.
    pub fn len(&self) -> (r: usize)
        ensures
            r == self@.len(),
    {
        self.photos.len()
    }

    /// The table never outgrows the positions that can address it.
    pub proof fn len_is_bounded(&self)
        ensures
            self@.len() <= usize::MAX,
    {
        assert(self@.len() == self.photos@.len());
        assert(self.photos.len() == self.photos@.len());
    }

    /// The position of the row with the identifier `id`.
    pub fn find(&self, id: &String) -> (r: Option<usize>)
        ensures
            r is Some == has_row(self@, id@),
            r matches Some(i) ==> i < self@.len() && self@[i as int].asset.identifier == id@,
            r matches Some(i) ==> forall|j: int| 0 <= j < i ==> (#[trigger] self@[j]).asset.identifier != id@,
            self.wf() ==> (r matches Some(i) ==> i == row_of(self@, id@)),
    {
        let mut i: usize = 0;
        while i < self.photos.len()
            invariant
                i <= self.photos.len(),
                forall|j: int| 0 <= j < i ==> (#[trigger] self@[j]).asset.identifier != id@,
            decreases self.photos.len() - i,
        {
            assert(self@[i as int] == self.photos[i as int]@);
            if self.photos[i].asset.identifier == *id {
                assert(self@[i as int].asset.identifier == id@);
                proof {
                    if self.wf() {
                        row_of_is_unique(self@, i as int);
                    }
                }
                return Some(i);
            }
            assert(self@[i as int].asset.identifier != id@);
            i += 1;
        }
        assert(!has_row(self@, id@));
        None
    }

    /// The row at `position`.
    pub fn row(&self, position: usize) -> (r: &IndexedPhoto)
        requires
            position < self@.len(),
        ensures
            r@ == self@[position as int],
    {
        &self.photos[position]
    }

    /// The row with the identifier `id`, if the index has one.
    pub fn get_photo(&self, id: &String) -> (r: Option<&IndexedPhoto>)
        ensures
            r is Some == has_row(self@, id@),
            r matches Some(p) ==> p@.asset.identifier == id@ && self@.contains(p@),
            self.wf() ==> (r matches Some(p) ==> p@ == self@[row_of(self@, id@)]),
    {
        match self.find(id) {
            Some(i) => {
                assert(self@[i as int] == self.photos[i as int]@);
                Some(&self.photos[i])
            },
            None => None,
        }
    }

    /// Inserts `photo`, or writes it over the row that has its identifier.
    /// Returns the position of the row.
    pub fn upsert_photo(&mut self, photo: IndexedPhoto) -> (r: usize)
        requires
            old(self).wf(),
        ensures
            final(self).wf(),
            final(self)@ == upsert_row(old(self)@, photo@),
            r < final(self)@.len(),
            r == row_of(final(self)@, photo@.asset.identifier),
            final(self)@[r as int] == photo@,
    {
        proof {
            upsert_row_keeps_distinct(self@, photo@);
        }
        let ghost before = self@;
        let ghost added = photo@;
        match self.find(&photo.asset.identifier) {
            Some(i) => {
                self.photos[i] = photo;
                assert(self@ =~= before.update(i as int, added));
                proof {
                    row_of_is_unique(self@, i as int);
                }
                i
            },
            None => {
                self.photos.push(photo);
                assert(self@ =~= before.push(added));
                proof {
                    row_of_is_unique(self@, before.len() as int);
                }
                self.photos.len() - 1
            },
        }
    }

    /// Writes each photo of `photos` into the index, the first one first.
    pub fn upsert_photo_batch(&mut self, photos: &Vec<IndexedPhoto>)
        requires
            old(self).wf(),
        ensures
            final(self).wf(),
            final(self)@ == upsert_all(old(self)@, photos.deep_view()),
    {
        let mut i: usize = 0;
        assert(photos.deep_view().take(0) =~= Seq::<PhotoView>::empty());
        while i < photos.len()
            invariant
                i <= photos.len(),
                self.wf(),
                self@ == upsert_all(old(self)@, photos.deep_view().take(i as int)),
            decreases photos.len() - i,
        {
            let ghost batch = photos.deep_view();
            assert(batch.take(i + 1).drop_last() =~= batch.take(i as int));
            assert(batch.take(i + 1).last() == photos[i as int]@);
            self.upsert_photo(photos[i].duplicate());
            i += 1;
        }
        assert(photos.deep_view().take(i as int) =~= photos.deep_view());
    }

    /// Records the outcome of a download attempt on the row with the identifier `id`.
    /// Returns whether the index has such a row; without one nothing changes.
    pub fn update_download_outcome(&mut self, id: &String, state: DownloadState) -> (r: bool)
        requires
            old(self).wf(),
        ensures
            final(self).wf(),
            final(self)@ == with_state(old(self)@, id@, state@),
            r == has_row(old(self)@, id@),
    {
        proof {
            with_state_keeps_ids(self@, id@, state@);
        }
        let ghost before = self@;
        let ghost given = state@;
        match self.find(id) {
            Some(i) => {
                assert(before[i as int] == self.photos[i as int]@);
                self.photos[i].state = state;
                assert(self@ =~= before.update(
                    i as int,
                    PhotoView { asset: before[i as int].asset, state: given },
                ));
                true
            },
            None => false,
        }
    }

    /// Brings a row in line with what is on disk: `file_len` is the length
    /// of the file that the row names, or nothing if there is no such file. A
    /// row that counts as downloaded while its file is missing or empty is
    /// flagged as failed, so that the next run downloads it again. Returns whether the row was flagged.
    pub fn reflag_missing_file(&mut self, id: &String, file_len: Option<u64>) -> (r: bool)
        requires
            old(self).wf(),
        ensures
            final(self).wf(),
            final(self)@ == reflagged(old(self)@, id@, file_len),
            r == (has_row(old(self)@, id@) && old(self)@[row_of(old(self)@, id@)].state is Downloaded
                && !file_is_usable(file_len)),
    {
        let usable = match file_len {
            Some(n) => n > 0,
            None => false,
        };
        let on_disk = match self.get_photo(id) {
            Some(row) => row.state.is_downloaded(),
            None => false,
        };
        if on_disk && !usable {
            self.update_download_outcome(
                id,
                DownloadState::Failed { reason: String::from_str("Local file is missing or empty") },
            );
            true
        } else {
            false
        }
    }

    /// The totals over all rows.
    pub fn aggregate_statistics(&self) -> (r: DownloadStatistics)
        ensures
            r.total_photos == self@.len(),
            r.downloaded_photos == downloaded_count(self@),
            r.failed_photos == failed_count(self@),
            r.total_bytes == byte_sum(self@),
            r.downloaded_bytes == downloaded_byte_sum(self@),
            r.download_permyriad == share_permyriad(downloaded_count(self@), self@.len()),
    {
        let n = self.photos.len();
        let mut downloaded: usize = 0;
        let mut failed: usize = 0;
        let mut total_bytes: u128 = 0;
        let mut downloaded_bytes: u128 = 0;
        let mut i: usize = 0;
        assert(self@.take(0) =~= Seq::<PhotoView>::empty());
        while i < n
            invariant
                n == self.photos.len(),
                i <= n,
                downloaded == downloaded_count(self@.take(i as int)),
                failed == failed_count(self@.take(i as int)),
                total_bytes == byte_sum(self@.take(i as int)),
                downloaded_bytes == downloaded_byte_sum(self@.take(i as int)),
            decreases n - i,
        {
            let photo = &self.photos[i];
            proof {
                assert(self@.take(i + 1).drop_last() =~= self@.take(i as int));
                assert(self@.take(i + 1).last() == photo@);
                totals_are_bounded(self@.take(i + 1));
                assert((i + 1) * u64::MAX <= usize::MAX * u64::MAX) by (nonlinear_arith)
                    requires
                        i + 1 <= usize::MAX,
                ;
                assert(usize::MAX * u64::MAX <= u128::MAX) by (nonlinear_arith)
                    requires
                        usize::MAX <= u64::MAX,
                ;
            }
            total_bytes = total_bytes + photo.asset.bytes as u128;
            if photo.state.is_downloaded() {
                downloaded = downloaded + 1;
                downloaded_bytes = downloaded_bytes + photo.asset.bytes as u128;
            } else if photo.state.is_failed() {
                failed = failed + 1;
            }
            i += 1;
        }
        assert(self@.take(n as int) =~= self@);
        let permyriad: u32 = if n == 0 {
            0
        } else {
            proof {
                totals_are_bounded(self@);
                share_is_bounded(downloaded as nat, n as nat);
                assert(downloaded * 10000 <= usize::MAX * 10000) by (nonlinear_arith)
                    requires
                        downloaded <= usize::MAX,
                ;
            }
            ((downloaded as u128 * 10000) / (n as u128)) as u32
        };
        DownloadStatistics {
            total_photos: n,
            downloaded_photos: downloaded,
            failed_photos: failed,
            total_bytes,
            downloaded_bytes,
            download_permyriad: permyriad,
        }
    }
}

} // verus!
