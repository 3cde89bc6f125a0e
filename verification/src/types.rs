//! The records that the contract keeps and the keys that it keeps them under.
use crate::host::{text_clone, Distribution, Text};
use vstd::prelude::*;

verus! {

/// An account or a contract on the ledger: its kind and the 32 bytes of its key, as
/// two big-endian halves.
#[derive(Clone, Copy, Debug, PartialEq, Eq, Structural)]
pub struct Address {
    pub is_contract: bool,
    pub high: u128,
    pub low: u128,
}

/// 32 bytes, as two big-endian halves: a hash, or the identifier that a caller gives an
/// operation so that it is carried out once.
#[derive(Clone, Copy, Debug, PartialEq, Eq, Structural)]
pub struct Bytes32 {
    pub high: u128,
    pub low: u128,
}

#[derive(Clone, Copy, Debug, PartialEq, Eq, Structural)]
pub enum Pillar {
    Hackathon,
    Bounty,
    Grant,
    Crowdfunding,
}

#[derive(Clone, Copy, Debug, PartialEq, Eq, Structural)]
pub enum EventStatus {
    Active,
    Cancelled,
    Completed,
    Cancelling,
}

/// Who is refunded when an event is cancelled, and how.
#[derive(Clone, Copy, Debug, PartialEq, Eq, Structural)]
pub enum CancellationBranch {
    /// Nobody but the owner has paid in: the owner gets everything back at once.
    OwnerOnly,
    /// Every contributor gets the whole contribution back, the owner the rest.
    FullPartnerThenResidual,
    /// The escrow no longer covers the contributions and is shared out in proportion.
    ProRataPartners,
}

#[derive(Clone, Copy, Debug, PartialEq, Eq, Structural)]
pub struct CancellationState {
    pub non_owner_total: i128,
    pub remaining_at_start: i128,
    pub count_at_start: u32,
    pub next_idx: u32,
    pub branch: CancellationBranch,
}

#[derive(Clone, Copy, Debug, PartialEq, Eq, Structural)]
pub enum ReleaseKind {
    /// Each prize is paid in one piece.
    Single,
    /// Each prize is paid in this many milestones.
    Multi(u32),
}

#[derive(Debug, PartialEq)]
pub struct EventRecord {
    pub id: u64,
    pub pillar: Pillar,
    pub owner: Address,
    pub token: Address,
    pub total_budget: i128,
    pub remaining_escrow: i128,
    pub release_kind: ReleaseKind,
    pub status: EventStatus,
    pub content_uri: Text,
    pub title: Text,
    pub created_at: u64,
    pub deadline: Option<u64>,
    pub winner_distribution: Distribution,
    pub fee_bps_override: Option<u32>,
}

impl Clone for EventRecord {
    fn clone(&self) -> (r: EventRecord)
        ensures
            r == *self,
    {
        EventRecord {
            id: self.id,
            pillar: self.pillar,
            owner: self.owner,
            token: self.token,
            total_budget: self.total_budget,
            remaining_escrow: self.remaining_escrow,
            release_kind: self.release_kind,
            status: self.status,
            content_uri: text_clone(&self.content_uri),
            title: text_clone(&self.title),
            created_at: self.created_at,
            deadline: self.deadline,
            winner_distribution: self.winner_distribution.clone(),
            fee_bps_override: self.fee_bps_override,
        }
    }
}

#[derive(Debug, PartialEq)]
pub struct CreateEventParams {
    pub pillar: Pillar,
    pub owner: Address,
    pub token: Address,
    pub total_budget: i128,
    pub release_kind: ReleaseKind,
    pub content_uri: Text,
    pub title: Text,
    pub deadline: Option<u64>,
    pub winner_distribution: Distribution,
    pub fee_bps_override: Option<u32>,
    pub manager: Option<Address>,
}

#[derive(Debug, PartialEq)]
pub struct Submission {
    pub applicant: Address,
    pub content_uri: Text,
    pub submitted_at: u64,
    pub updated_at: Option<u64>,
}

impl Clone for Submission {
    fn clone(&self) -> (r: Submission)
        ensures
            r == *self,
    {
        Submission {
            applicant: self.applicant,
            content_uri: text_clone(&self.content_uri),
            submitted_at: self.submitted_at,
            updated_at: self.updated_at,
        }
    }
}

#[derive(Clone, Copy, Debug, PartialEq, Eq, Structural)]
pub struct Contribution {
    pub contributor: Address,
    pub amount: i128,
    pub contributed_at: u64,
}

#[derive(Clone, Copy, Debug, PartialEq, Eq, Structural)]
pub struct Winner {
    pub recipient: Address,
    pub position: u32,
    pub amount: i128,
    pub milestone: Option<u32>,
    pub paid_at: Option<u64>,
}

#[derive(Clone, Copy, Debug, PartialEq, Eq, Structural)]
pub struct WinnerSpec {
    pub recipient: Address,
    pub position: u32,
    pub reputation_bump: u32,
}

/// Who won a position, and where the winner's row stands in the list of winners.
#[derive(Clone, Copy, Debug, PartialEq, Eq, Structural)]
pub struct PrizeAward {
    pub recipient: Address,
    pub anchor_idx: u32,
    pub reputation_bump: u32,
}

#[derive(Clone, Copy, Debug, PartialEq, Eq, Structural)]
pub struct PendingAdmin {
    pub target: Address,
    pub expires_at_ledger: u32,
}

#[derive(Clone, Copy, Debug, PartialEq, Eq, Structural)]
pub struct PendingManager {
    pub target: Address,
    pub expires_at_ledger: u32,
}

#[derive(Debug, PartialEq)]
pub struct PendingUpgrade {
    pub wasm_hash: Bytes32,
    pub new_version: Text,
    pub proposed_at_ledger: u32,
    pub available_at_ledger: u32,
    pub expires_at_ledger: u32,
}

/// The keys of the contract's ledger entries.
#[derive(Clone, Copy, Debug, PartialEq, Eq, Structural)]
pub enum DataKey {
    Admin,
    PendingAdmin,
    FeeAccount,
    FeeBps,
    Paused,
    DeploymentSeq,
    ProfileContract,
    SupportedToken(Address),
    NextEventId,
    Event(u64),
    EventManager(u64),
    EventApplicantCount(u64),
    EventApplicantAt(u64, u32),
    EventApplicantSlot(u64, Address),
    EventSubmission(u64, Address),
    EventWinnerCount(u64),
    EventWinnerAt(u64, u32),
    ContributorAmount(u64, Address),
    ContributorCount(u64),
    ContributorAt(u64, u32),
    ContributorSlot(u64, Address),
    MilestoneClaimed(u64, Address, u32),
    CrowdfundingMilestonesClaimed(u64),
    CancellationState(u64),
    Version,
    PendingUpgrade,
    MigratedToVersion,
    /// Set once an operation is done, under the address that authorized it: an entry
    /// point that anyone may call cannot use up the identifier of another caller.
    OpSeen(Address, Bytes32),
    SupportedTokenCount,
    SupportedTokenAt(u32),
    SupportedTokenSlot(Address),
    NonOwnerContributionTotal(u64),
    EventPrizeAward(u64, u32),
    EventUnclaimedPrizes(u64),
    EventPrizeBaseEscrow(u64),
    EventPrizeClaimExpiry(u64),
    PendingManager(u64),
    EventSubmissionCount(u64),
}

/// The event that a key belongs to, if it belongs to one.
pub open spec fn event_of(key: DataKey) -> Option<u64> {
    match key {
        DataKey::Event(id) => Some(id),
        DataKey::EventManager(id) => Some(id),
        DataKey::EventApplicantCount(id) => Some(id),
        DataKey::EventApplicantAt(id, _) => Some(id),
        DataKey::EventApplicantSlot(id, _) => Some(id),
        DataKey::EventSubmission(id, _) => Some(id),
        DataKey::EventWinnerCount(id) => Some(id),
        DataKey::EventWinnerAt(id, _) => Some(id),
        DataKey::ContributorAmount(id, _) => Some(id),
        DataKey::ContributorCount(id) => Some(id),
        DataKey::ContributorAt(id, _) => Some(id),
        DataKey::ContributorSlot(id, _) => Some(id),
        DataKey::MilestoneClaimed(id, _, _) => Some(id),
        DataKey::CrowdfundingMilestonesClaimed(id) => Some(id),
        DataKey::CancellationState(id) => Some(id),
        DataKey::NonOwnerContributionTotal(id) => Some(id),
        DataKey::EventPrizeAward(id, _) => Some(id),
        DataKey::EventUnclaimedPrizes(id) => Some(id),
        DataKey::EventPrizeBaseEscrow(id) => Some(id),
        DataKey::EventPrizeClaimExpiry(id) => Some(id),
        DataKey::PendingManager(id) => Some(id),
        DataKey::EventSubmissionCount(id) => Some(id),
        _ => None,
    }
}

} // verus!
