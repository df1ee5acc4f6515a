//! What can go wrong during a run, and which failures are worth another try.

use vstd::prelude::*;
use crate::text::{decimal, decimal_text};

verus! {

/// A failure of one of the collaborators of the engine.
#[derive(Clone, Debug, PartialEq, Eq)]
pub enum BackupError {
    /// The network layer failed: timeout, name resolution, connection reset.
    Transport { detail: String },
    /// The remote host answered with a status outside the 2xx range.
    RemoteRejected { status: u16, body: String },
    /// The remote host answered 2xx with a body that does not have the expected shape.
    MalformedResponse { detail: String },
    /// The local disk refused a directory or a file.
    Filesystem { detail: String },
    /// The index store is unreachable or corrupt.
    Store { detail: String },
}

/// The mathematical value of a [`BackupError`].
pub ghost enum ErrorView {
    Transport { detail: Seq<char> },
    RemoteRejected { status: u16, body: Seq<char> },
    MalformedResponse { detail: Seq<char> },
    Filesystem { detail: Seq<char> },
    Store { detail: Seq<char> },
}

impl View for BackupError {
    type V = ErrorView;

    open spec fn view(&self) -> ErrorView {
        match self {
            BackupError::Transport { detail } => ErrorView::Transport { detail: detail@ },
            BackupError::RemoteRejected { status, body } => ErrorView::RemoteRejected {
                status: *status,
                body: body@,
            },
            BackupError::MalformedResponse { detail } => ErrorView::MalformedResponse { detail: detail@ },
            BackupError::Filesystem { detail } => ErrorView::Filesystem { detail: detail@ },
            BackupError::Store { detail } => ErrorView::Store { detail: detail@ },
        }
    }
}

/// Whether a status code is in the 2xx range.
pub open spec fn is_success_status(status: u16) -> bool {
    200 <= status <= 299
}

/// Whether a rejection with this status may go away by itself: a server
/// error (5xx) or a rate limit (429).
pub open spec fn is_transient_status(status: u16) -> bool {
    500 <= status <= 599 || status == 429
}

impl ErrorView {
    /// Whether the failed operation is worth another try.
    pub open spec fn is_retryable(self) -> bool {
        match self {
            ErrorView::Transport { .. } => true,
            ErrorView::RemoteRejected { status, .. } => is_transient_status(status),
            _ => false,
        }
    }

    /// Whether the failure ends the whole run, whatever it happened on.
    pub open spec fn is_fatal_for_run(self) -> bool {
        self is Store
    }

    /// The failure in words: what failed, then the detail that came with it.
    pub open spec fn message(self) -> Seq<char> {
        match self {
            ErrorView::Transport { detail } => "Request failed: "@ + detail,
            ErrorView::RemoteRejected { status, body } => "Request failed with status: "@ + decimal(
                status as nat,
            ) + " - "@ + body,
            ErrorView::MalformedResponse { detail } => "Failed to parse response: "@ + detail,
            ErrorView::Filesystem { detail } => "Failed to write file: "@ + detail,
            ErrorView::Store { detail } => "Index store failed: "@ + detail,
        }
    }
}

/// Whether a status code is in the 2xx range.
pub fn status_is_success(status: u16) -> (r: bool)
    ensures
        r == is_success_status(status),
{
    200 <= status && status <= 299
}

impl BackupError {
    /// Whether the failed operation is worth another try.
    pub fn is_retryable(&self) -> (r: bool)
        ensures
            r == self@.is_retryable(),
    {
        match self {
            BackupError::Transport { .. } => true,
            BackupError::RemoteRejected { status, .. } => (500 <= *status && *status <= 599) || *status == 429,
            _ => false,
        }
    }

    /// Whether the failure ends the whole run, whatever it happened on.
    pub fn is_fatal_for_run(&self) -> (r: bool)
        ensures
            r == self@.is_fatal_for_run(),
    {
        match self {
            BackupError::Store { .. } => true,
            _ => false,
        }
    }

    /// The failure in words: what failed, then the detail that came with it.
    pub fn message(&self) -> (r: String)
        ensures
            r@ == self@.message(),
    {
        match self {
            BackupError::Transport { detail } => {
                String::from_str("Request failed: ").concat(detail.as_str())
            },
            BackupError::RemoteRejected { status, body } => {
                let mut r = String::from_str("Request failed with status: ");
                r.append(decimal_text(*status as u64).as_str());
                r.append(" - ");
                r.append(body.as_str());
                r
            },
            BackupError::MalformedResponse { detail } => {
                String::from_str("Failed to parse response: ").concat(detail.as_str())
            },
            BackupError::Filesystem { detail } => {
                String::from_str("Failed to write file: ").concat(detail.as_str())
            },
            BackupError::Store { detail } => {
                String::from_str("Index store failed: ").concat(detail.as_str())
            },
        }
    }

    /// Copies the error.
    pub fn duplicate(&self) -> (r: BackupError)
        ensures
            r@ == self@,
    {
        match self {
            BackupError::Transport { detail } => BackupError::Transport { detail: detail.clone() },
            BackupError::RemoteRejected { status, body } => BackupError::RemoteRejected {
                status: *status,
                body: body.clone(),
            },
            BackupError::MalformedResponse { detail } => BackupError::MalformedResponse {
                detail: detail.clone(),
            },
            BackupError::Filesystem { detail } => BackupError::Filesystem { detail: detail.clone() },
            BackupError::Store { detail } => BackupError::Store { detail: detail.clone() },
        }
    }
}

/// How often a failed page request is repeated, and how long to wait before each repeat.
#[derive(Clone, Copy, Debug, PartialEq, Eq, Structural)]
pub struct RetryPolicy {
    /// The number of repeats after the first failure.
    pub max_retries: u32,
    /// The wait before the first repeat, in milliseconds.
    pub base_delay_ms: u64,
    /// The longest wait, in milliseconds.
    pub max_delay_ms: u64,
}

/// Two to the power `n`.
pub open spec fn pow2(n: nat) -> nat
    decreases n,
{
    if n == 0 {
        1
    } else {
        2 * pow2((n - 1) as nat)
    }
}

impl RetryPolicy {
    /// The wait before repeat number `attempt` (the first repeat has number
    /// 0): the base delay doubled `attempt` times, but no more than the longest wait.
    pub open spec fn delay_spec(self, attempt: nat) -> int {
        if self.base_delay_ms * pow2(attempt) <= self.max_delay_ms {
            self.base_delay_ms * pow2(attempt)
        } else {
            self.max_delay_ms as int
        }
    }

    /// The wait before repeat number `attempt`, in milliseconds.
    pub fn delay_ms(&self, attempt: u32) -> (r: u64)
        ensures
            r == self.delay_spec(attempt as nat),
    {
        if self.base_delay_ms > self.max_delay_ms {
            proof {
                pow2_grows(0, attempt as nat);
                assert(self.base_delay_ms * pow2(attempt as nat) >= self.base_delay_ms) by (nonlinear_arith)
                    requires
                        pow2(attempt as nat) >= 1,
                ;
            }
            return self.max_delay_ms;
        }
        let mut delay: u64 = self.base_delay_ms;
        let mut i: u32 = 0;
        assert(self.base_delay_ms * pow2(0) == self.base_delay_ms) by (nonlinear_arith)
            requires
                pow2(0) == 1,
        ;
        while i < attempt
            invariant
                i <= attempt,
                delay == self.base_delay_ms * pow2(i as nat),
                delay <= self.max_delay_ms,
            decreases attempt - i,
        {
            proof {
                assert(pow2(i as nat + 1) == 2 * pow2(i as nat));
                assert(self.base_delay_ms * pow2(i as nat + 1) == 2 * (self.base_delay_ms * pow2(i as nat)))
                    by (nonlinear_arith)
                    requires
                        pow2(i as nat + 1) == 2 * pow2(i as nat),
                ;
            }
            if delay > self.max_delay_ms / 2 {
                proof {
                    pow2_grows(i as nat + 1, attempt as nat);
                    assert(self.base_delay_ms * pow2(attempt as nat) >= self.base_delay_ms * pow2(
                        i as nat + 1,
                    )) by (nonlinear_arith)
                        requires
                            pow2(attempt as nat) >= pow2(i as nat + 1),
                    ;
                }
                return self.max_delay_ms;
            }
            delay = delay * 2;
            i += 1;
        }
        delay
    }
}

/// Powers of two grow with the exponent.
pub proof fn pow2_grows(a: nat, b: nat)
    requires
        a <= b,
    ensures
        pow2(a) <= pow2(b),
        pow2(a) >= 1,
    decreases b,
{
    if a < b {
        pow2_grows(a, (b - 1) as nat);
    } else if a > 0 {
        pow2_grows((a - 1) as nat, (a - 1) as nat);
    }
}

} // verus!
