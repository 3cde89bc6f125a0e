//! Why operations are refused.
use vstd::prelude::*;

verus! {

/// Why an operation was refused. A refused operation leaves no trace on the ledger.
#[derive(Clone, Copy, Debug, PartialEq, Eq, Structural)]
pub enum Error {
    // Guards shared by the entry points.
    Paused,
    DuplicateOperation,
    UnsupportedToken,
    EventIdExhausted,
    // Event lookup and status.
    EventNotFound,
    EventNotActive,
    InvalidPillar,
    InvalidReleaseKind,
    // Creation.
    TitleTooLong,
    InvalidBudget,
    InvalidDistribution,
    DistributionMismatch,
    InvalidFeeBps,
    // Manager rotation.
    PendingRotationMismatch,
    PendingRotationExpired,
    // Contributions.
    InvalidContributionAmount,
    BelowMinimumContribution,
    TooManyContributors,
    // Cancellation.
    CancellationTotalMissing,
    CancellationAlreadyStarted,
    CancellationNotStarted,
    CancellationNotFinished,
    // Submissions.
    ApplicantNotApplied,
    SubmissionNotFound,
    // Winners and prizes.
    WinnersAlreadySelected,
    NoSubmissions,
    InvalidWinnerPosition,
    DuplicateWinnerPosition,
    InsufficientEscrow,
    PrizeAlreadyClaimed,
}

} // verus!
