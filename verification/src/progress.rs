//! The progress snapshot that observers poll while a run is under way.

use vstd::prelude::*;

verus! {

/// The phase a run is in, as observers see it.
#[derive(Clone, Copy, Debug, PartialEq, Eq, Structural)]
pub enum RunStatus {
    Idle,
    Starting,
    Running,
    Done,
    Error,
}

impl RunStatus {
    /// The textual tag of the status.
    pub open spec fn label_spec(self) -> Seq<char> {
        match self {
            RunStatus::Idle => "idle"@,
            RunStatus::Starting => "starting"@,
            RunStatus::Running => "running"@,
            RunStatus::Done => "done"@,
            RunStatus::Error => "error"@,
        }
    }

    /// Returns the textual tag of the status.
    pub fn label(&self) -> (r: String)
        ensures
            r@ == self.label_spec(),
    {
        match self {
            RunStatus::Idle => String::from_str("idle"),
            RunStatus::Starting => String::from_str("starting"),
            RunStatus::Running => String::from_str("running"),
            RunStatus::Done => String::from_str("done"),
            RunStatus::Error => String::from_str("error"),
        }
    }
}

/// How far a run has come.
#[derive(Clone, Debug, PartialEq, Eq)]
pub struct ProgressSnapshot {
    /// The number of items the run expects to attempt.
    pub total: usize,
    /// The number of attempts that have finished, whatever their outcome.
    pub downloaded: usize,
    /// The item that finished last.
    pub current_file: String,
    pub status: RunStatus,
}

/// The mathematical value of a [`ProgressSnapshot`].
pub ghost struct ProgressView {
    pub total: nat,
    pub downloaded: nat,
    pub current_file: Seq<char>,
    pub status: RunStatus,
}

impl View for ProgressSnapshot {
    type V = ProgressView;

    open spec fn view(&self) -> ProgressView {
        ProgressView {
            total: self.total as nat,
            downloaded: self.downloaded as nat,
            current_file: self.current_file@,
            status: self.status,
        }
    }
}

impl ProgressView {
    /// The snapshot before any run.
    pub open spec fn idle() -> ProgressView {
        ProgressView { total: 0, downloaded: 0, current_file: Seq::empty(), status: RunStatus::Idle }
    }

    /// The snapshot at the start of a run over `total` items.
    pub open spec fn reset(total: nat) -> ProgressView {
        ProgressView { total, downloaded: 0, current_file: Seq::empty(), status: RunStatus::Starting }
    }

    /// The snapshot after the attempt on `item` has finished.
    pub open spec fn record_completion(self, item: Seq<char>) -> ProgressView {
        ProgressView { downloaded: self.downloaded + 1, current_file: item, ..self }
    }

    /// The snapshot with another status.
    pub open spec fn with_status(self, status: RunStatus) -> ProgressView {
        ProgressView { status, ..self }
    }
}

impl ProgressSnapshot {
    /// The snapshot before any run.
    pub fn new() -> (r: ProgressSnapshot)
        ensures
            r@ == ProgressView::idle(),
    {
        ProgressSnapshot { total: 0, downloaded: 0, current_file: String::new(), status: RunStatus::Idle }
    }

    /// Starts a run over `total` items: nothing is finished yet.
    pub fn reset(&mut self, total: usize)
        ensures
            final(self)@ == ProgressView::reset(total as nat),
    {
        self.total = total;
        self.downloaded = 0;
        self.current_file = String::new();
        self.status = RunStatus::Starting;
    }

    /// Counts one finished attempt and remembers its item.
    pub fn record_completion(&mut self, item: String)
        requires
            old(self).downloaded < usize::MAX,
        ensures
            final(self)@ == old(self)@.record_completion(item@),
    {
        self.downloaded = self.downloaded + 1;
        self.current_file = item;
    }

    /// Changes the status and nothing else.
    pub fn set_status(&mut self, status: RunStatus)
        ensures
            final(self)@ == old(self)@.with_status(status),
    {
        self.status = status;
    }

    /// A copy of the current state, for an observer.
    pub fn snapshot(&self) -> (r: ProgressSnapshot)
        ensures
            r@ == self@,
    {
        ProgressSnapshot {
            total: self.total,
            downloaded: self.downloaded,
            current_file: self.current_file.clone(),
            status: self.status,
        }
    }
}

} // verus!
