//! An indexed photo: a remote asset together with what is known locally.

use vstd::prelude::*;
use crate::asset::{AssetView, RemoteAsset};

verus! {

/// Where a photo stands with respect to its download.
#[derive(Clone, Debug, PartialEq, Eq)]
pub enum DownloadState {
    /// No download of this photo has finished yet.
    NotAttempted,
    /// The photo is on disk.
    Downloaded { local_path: String, checksum: String, backup_date: String },
    /// The last attempt failed.
    Failed { reason: String },
}

/// The mathematical value of a [`DownloadState`].
pub ghost enum StateView {
    NotAttempted,
    Downloaded { local_path: Seq<char>, checksum: Seq<char>, backup_date: Seq<char> },
    Failed { reason: Seq<char> },
}

impl View for DownloadState {
    type V = StateView;

    open spec fn view(&self) -> StateView {
        match self {
            DownloadState::NotAttempted => StateView::NotAttempted,
            DownloadState::Downloaded { local_path, checksum, backup_date } => StateView::Downloaded {
                local_path: local_path@,
                checksum: checksum@,
                backup_date: backup_date@,
            },
            DownloadState::Failed { reason } => StateView::Failed { reason: reason@ },
        }
    }
}

impl DownloadState {
    /// Copies the state.
    pub fn duplicate(&self) -> (r: DownloadState)
        ensures
            r@ == self@,
    {
        match self {
            DownloadState::NotAttempted => DownloadState::NotAttempted,
            DownloadState::Downloaded { local_path, checksum, backup_date } => DownloadState::Downloaded {
                local_path: local_path.clone(),
                checksum: checksum.clone(),
                backup_date: backup_date.clone(),
            },
            DownloadState::Failed { reason } => DownloadState::Failed { reason: reason.clone() },
        }
    }

    /// Whether the photo is on disk.
    pub fn is_downloaded(&self) -> (r: bool)
        ensures
            r == (self@ is Downloaded),
    {
        match self {
            DownloadState::Downloaded { .. } => true,
            _ => false,
        }
    }

    /// Whether the last attempt failed.
    pub fn is_failed(&self) -> (r: bool)
        ensures
            r == (self@ is Failed),
    {
        match self {
            DownloadState::Failed { .. } => true,
            _ => false,
        }
    }
}

/// One row of the index.
#[derive(Clone, Debug, PartialEq, Eq)]
pub struct IndexedPhoto {
    pub asset: RemoteAsset,
    pub state: DownloadState,
}

/// The mathematical value of an [`IndexedPhoto`].
pub ghost struct PhotoView {
    pub asset: AssetView,
    pub state: StateView,
}

impl View for IndexedPhoto {
    type V = PhotoView;

    open spec fn view(&self) -> PhotoView {
        PhotoView { asset: self.asset@, state: self.state@ }
    }
}

impl PhotoView {
    /// The row that a first sighting of `asset` creates.
    pub open spec fn pending(asset: AssetView) -> PhotoView {
        PhotoView { asset, state: StateView::NotAttempted }
    }

    /// Whether the row is on disk at the version that the catalog now lists.
    pub open spec fn is_current(self, asset: AssetView) -> bool {
        self.state is Downloaded && self.asset.version == asset.version
    }
}

impl IndexedPhoto {
    /// The row for an asset seen for the first time.
    pub fn pending(asset: RemoteAsset) -> (r: IndexedPhoto)
        ensures
            r@ == PhotoView::pending(asset@),
    {
        IndexedPhoto { asset, state: DownloadState::NotAttempted }
    }

    /// Copies the row.
    pub fn duplicate(&self) -> (r: IndexedPhoto)
        ensures
            r@ == self@,
    {
        IndexedPhoto { asset: self.asset.duplicate(), state: self.state.duplicate() }
    }

    /// Whether the row is on disk at the version that the catalog now lists.
    pub fn is_current(&self, asset: &RemoteAsset) -> (r: bool)
        ensures
            r == self@.is_current(asset@),
    {
        self.state.is_downloaded() && self.asset.version == asset.version
    }
}

} // verus!
