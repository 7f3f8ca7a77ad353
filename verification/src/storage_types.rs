use vstd::prelude::*;

verus! {

/// Immutable metadata of a proposal. Once stored it is never updated or
/// deleted; its identity is `proposal_id`.
pub struct Proposal {
    pub proposal_id: u32,
    pub creator: u64,
    pub title: String,
    pub description: String,
    pub vote_start_at: u64,
    pub vote_end_at: u64,
}

/// Participation floor and approval multiplier used to resolve a closed
/// proposal. `percent_yes` is a raw multiplier: a proposal passes only when
/// `yes_votes > total_votes * percent_yes`, so callers supply it pre-scaled.
#[derive(Clone, Copy, PartialEq, Eq, Structural, Debug)]
pub struct QuorumRequirements {
    pub min_total_votes: u64,
    pub percent_yes: u64,
}

/// Running tally of one proposal's ballot. An absent record means `(0, 0)`.
#[derive(Clone, Copy, PartialEq, Eq, Structural, Debug)]
pub struct Votes {
    pub yes_votes: u64,
    pub total_votes: u64,
}

/// Voting-weight policy. `staker_weight` is the minimum staked balance a
/// principal needs to vote or create proposals; `holder_weight` is retained
/// for future holder-weighted schemes and is not consumed by the resolver.
#[derive(Clone, Copy, PartialEq, Eq, Structural, Debug)]
pub struct VotesWeight {
    pub staker_weight: u32,
    pub holder_weight: u32,
}

/// Every failure a governance operation can surface. Each operation either
/// completes in full or returns one of these and leaves all state untouched.
#[derive(Clone, Copy, PartialEq, Eq, Structural, Debug)]
pub enum GovernanceError {
    /// `initialize` was called while an administrator is already set.
    AlreadyInitialized,
    /// The caller is not the principal the operation demands.
    Unauthorized,
    /// The principal's staked balance is below the configured weight.
    NotEligible,
    /// Malformed voting window, non-positive id, or empty title.
    InvalidProposal,
    /// No proposal is stored under the requested id.
    ProposalNotFound,
    /// The voter has already cast a ballot on this proposal.
    AlreadyVoted,
    /// A non-admin, non-voting observer asked for a live tally.
    ResultsNotYetVisible,
    /// An unstake request exceeds the staked balance.
    InsufficientStake,
    /// Resolution was requested before the voting window closed.
    VotingStillOpen,
    /// The token transfer gateway reported a failure; no ledger state moved.
    TransferFailed,
}

} // verus!
