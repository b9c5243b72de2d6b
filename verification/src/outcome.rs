//! What probing one host can end in.

use vstd::prelude::*;

verus! {

/// The result of probing one host.
#[derive(Clone, Debug, PartialEq, Eq)]
pub enum FetchOutcome {
    /// The handshake succeeded and the leaf certificate was read;
    /// `not_after` is the end of its validity, in seconds since the epoch.
    Success { not_after: i64 },
    /// Resolving, connecting, the handshake or decoding failed.
    Failure { reason: String },
    /// Nothing arrived within the bound: the host's state is unknown.
    TimedOut,
}

/// The mathematical content of a [`FetchOutcome`].
pub enum OutcomeView {
    Success { not_after: int },
    Failure { reason: Seq<char> },
    TimedOut,
}

impl View for FetchOutcome {
    type V = OutcomeView;

    open spec fn view(&self) -> OutcomeView {
        match *self {
            FetchOutcome::Success { not_after } => OutcomeView::Success {
                not_after: not_after as int,
            },
            FetchOutcome::Failure { reason } => OutcomeView::Failure { reason: reason@ },
            FetchOutcome::TimedOut => OutcomeView::TimedOut,
        }
    }
}

} // verus!
