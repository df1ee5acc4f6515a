//! The download state of a photo as the store keeps it: two flags and four
//! optional texts.

use vstd::prelude::*;
use crate::photo::{DownloadState, StateView};
use crate::text::copy_opt_text;

verus! {

/// The columns of a photo row that hold its download state.
#[derive(Clone, Debug, PartialEq, Eq)]
pub struct StateColumns {
    pub local_path: Option<String>,
    pub backup_date: Option<String>,
    pub checksum: Option<String>,
    pub is_downloaded: bool,
    pub download_failed: bool,
    pub failure_reason: Option<String>,
}

/// The mathematical value of [`StateColumns`].
pub ghost struct ColumnsView {
    pub local_path: Option<Seq<char>>,
    pub backup_date: Option<Seq<char>>,
    pub checksum: Option<Seq<char>>,
    pub is_downloaded: bool,
    pub download_failed: bool,
    pub failure_reason: Option<Seq<char>>,
}

impl View for StateColumns {
    type V = ColumnsView;

    open spec fn view(&self) -> ColumnsView {
        ColumnsView {
            local_path: self.local_path.deep_view(),
            backup_date: self.backup_date.deep_view(),
            checksum: self.checksum.deep_view(),
            is_downloaded: self.is_downloaded,
            download_failed: self.download_failed,
            failure_reason: self.failure_reason.deep_view(),
        }
    }
}

/// The text, or the empty text where there is none.
pub open spec fn text_or_empty(text: Option<Seq<char>>) -> Seq<char> {
    match text {
        Some(t) => t,
        None => Seq::empty(),
    }
}

impl ColumnsView {
    /// The state that the columns stand for. A row that is flagged as
    /// downloaded counts as downloaded only if it names its file; without a
    /// file, or without a flag, it is failed if it is flagged so, and else not yet attempted.
    pub open spec fn state(self) -> StateView {
        if self.is_downloaded && self.local_path is Some {
            StateView::Downloaded {
                local_path: self.local_path->0,
                checksum: text_or_empty(self.checksum),
                backup_date: text_or_empty(self.backup_date),
            }
        } else if self.download_failed {
            StateView::Failed { reason: text_or_empty(self.failure_reason) }
        } else {
            StateView::NotAttempted
        }
    }

    /// The columns that are written for the outcome of a download attempt.
    /// The attempt counts as a success only if it names the file that it
    /// wrote; any other attempt has failed.
    pub open spec fn for_status(
        is_downloaded: bool,
        local_path: Option<Seq<char>>,
        failure_reason: Option<Seq<char>>,
    ) -> ColumnsView {
        let succeeded = is_downloaded && local_path is Some;
        ColumnsView {
            local_path,
            backup_date: None,
            checksum: None,
            is_downloaded: succeeded,
            download_failed: !succeeded,
            failure_reason,
        }
    }

    /// The flag for a download is set only together with the path of the file.
    pub open spec fn names_its_file(self) -> bool {
        self.is_downloaded ==> self.local_path is Some
    }
}

impl StateView {
    /// The columns that hold the state.
    pub open spec fn columns(self) -> ColumnsView {
        match self {
            StateView::NotAttempted => ColumnsView {
                local_path: None,
                backup_date: None,
                checksum: None,
                is_downloaded: false,
                download_failed: false,
                failure_reason: None,
            },
            StateView::Downloaded { local_path, checksum, backup_date } => ColumnsView {
                local_path: Some(local_path),
                backup_date: Some(backup_date),
                checksum: Some(checksum),
                is_downloaded: true,
                download_failed: false,
                failure_reason: None,
            },
            StateView::Failed { reason } => ColumnsView {
                local_path: None,
                backup_date: None,
                checksum: None,
                is_downloaded: false,
                download_failed: true,
                failure_reason: Some(reason),
            },
        }
    }
}

/// A state that is written to its columns and read back is the same state.
pub proof fn columns_keep_the_state(state: StateView)
    ensures
        state.columns().state() == state,
{
}

/// Columns never stand for a downloaded photo without a file.
pub proof fn downloaded_rows_name_their_file(columns: ColumnsView)
    ensures
        columns.state() is Downloaded ==> columns.local_path is Some,
{
}

/// The columns that hold a state never flag a download without naming its file.
pub proof fn written_columns_name_their_file(state: StateView)
    ensures
        state.columns().names_its_file(),
{
}

/// The outcome of an attempt is a download exactly if it is reported as
/// one and names its file, and a failure otherwise; its columns never flag
/// a download without naming the file.
pub proof fn attempt_succeeds_only_with_a_file(
    is_downloaded: bool,
    local_path: Option<Seq<char>>,
    failure_reason: Option<Seq<char>>,
)
    ensures
        ColumnsView::for_status(is_downloaded, local_path, failure_reason).names_its_file(),
        ColumnsView::for_status(is_downloaded, local_path, failure_reason).state() is Downloaded
            == (is_downloaded && local_path is Some),
        ColumnsView::for_status(is_downloaded, local_path, failure_reason).state() is Failed == !(
        is_downloaded && local_path is Some),
{
}

/// The text of an optional string, or the empty string.
fn owned_or_empty(text: &Option<String>) -> (r: String)
    ensures
        r@ == text_or_empty(text.deep_view()),
{
    match text {
        Some(t) => t.clone(),
        None => String::new(),
    }
}

impl StateColumns {
    /// The columns that are written for the outcome of a download attempt.
    /// The attempt counts as a success only if it names the file that it
    /// wrote; any other attempt has failed.
    pub fn for_status(is_downloaded: bool, local_path: Option<String>, failure_reason: Option<String>) -> (r:
        StateColumns)
        ensures
            r@ == ColumnsView::for_status(is_downloaded, local_path.deep_view(), failure_reason.deep_view()),
            r@.names_its_file(),
    {
        let succeeded = is_downloaded && local_path.is_some();
        StateColumns {
            local_path,
            backup_date: None,
            checksum: None,
            is_downloaded: succeeded,
            download_failed: !succeeded,
            failure_reason,
        }
    }

    /// The state that the columns stand for.
    pub fn state(&self) -> (r: DownloadState)
        ensures
            r@ == self@.state(),
    {
        if self.is_downloaded {
            if let Some(path) = &self.local_path {
                return DownloadState::Downloaded {
                    local_path: path.clone(),
                    checksum: owned_or_empty(&self.checksum),
                    backup_date: owned_or_empty(&self.backup_date),
                };
            }
        }
        if self.download_failed {
            DownloadState::Failed { reason: owned_or_empty(&self.failure_reason) }
        } else {
            DownloadState::NotAttempted
        }
    }

    /// Copies the columns.
    pub fn duplicate(&self) -> (r: StateColumns)
        ensures
            r@ == self@,
    {
        StateColumns {
            local_path: copy_opt_text(&self.local_path),
            backup_date: copy_opt_text(&self.backup_date),
            checksum: copy_opt_text(&self.checksum),
            is_downloaded: self.is_downloaded,
            download_failed: self.download_failed,
            failure_reason: copy_opt_text(&self.failure_reason),
        }
    }
}

impl DownloadState {
    /// The columns that hold the state.
    pub fn columns(&self) -> (r: StateColumns)
        ensures
            r@ == self@.columns(),
    {
        match self {
            DownloadState::NotAttempted => StateColumns {
                local_path: None,
                backup_date: None,
                checksum: None,
                is_downloaded: false,
                download_failed: false,
                failure_reason: None,
            },
            DownloadState::Downloaded { local_path, checksum, backup_date } => StateColumns {
                local_path: Some(local_path.clone()),
                backup_date: Some(backup_date.clone()),
                checksum: Some(checksum.clone()),
                is_downloaded: true,
                download_failed: false,
                failure_reason: None,
            },
            DownloadState::Failed { reason } => StateColumns {
                local_path: None,
                backup_date: None,
                checksum: None,
                is_downloaded: false,
                download_failed: true,
                failure_reason: Some(reason.clone()),
            },
        }
    }
}

/// A size as the store keeps it, a signed 64-bit integer. A size that is
/// larger than the largest such integer cannot be kept: there is no integer for it.
pub open spec fn sql_integer_of(n: u64) -> Option<i64> {
    if n <= i64::MAX {
        Some(n as i64)
    } else {
        None
    }
}

/// Converts a size to the integer that the store keeps. The integer is
/// the size itself; a size that does not fit is refused, never changed.
pub fn sql_integer(n: u64) -> (r: Option<i64>)
    ensures
        r == sql_integer_of(n),
        r matches Some(kept) ==> kept == n,
        r is None <==> n > i64::MAX,
{
    if n <= 0x7fff_ffff_ffff_ffff {
        Some(n as i64)
    } else {
        None
    }
}

/// Converts a width or a height to the integer that the store keeps.
pub fn sql_dimension(d: Option<u32>) -> (r: Option<i64>)
    ensures
        r == match d {
            Some(v) => Some(v as i64),
            None => None,
        },
{
    match d {
        Some(v) => Some(v as i64),
        None => None,
    }
}

} // verus!
