//! The governance state-holder and its configuration operations.
//!
//! `TokenSale` aggregates everything the durable store keeps for this
//! system: the administrator, the governance token reference, the voting
//! policy and quorum configuration, the stake ledger, the proposal registry
//! and the ballot ledger. The host passes it to every operation; `wf` is the
//! well-formedness invariant every operation preserves.

use vstd::prelude::*;

use crate::storage_types::{GovernanceError, Proposal, QuorumRequirements, Votes, VotesWeight};
use crate::store::{alist_lookup, alist_unique, count_votes, sum_amounts};

verus! {

/// The ballot-ledger invariant at one proposal id: the tally records
/// exactly the ballots the has-voted ledger holds for that proposal, and
/// yes votes never exceed total votes.
pub open spec fn tally_ok(tallies: Seq<(u32, Votes)>, voted: Seq<(u64, u32)>, id: u32) -> bool {
    let tally = match alist_lookup(tallies, id) {
        Some(votes) => votes,
        None => Votes { yes_votes: 0, total_votes: 0 },
    };
    &&& tally.total_votes == count_votes(voted, id)
    &&& tally.yes_votes <= tally.total_votes
}

/// Governance state. Stake records, proposals, tallies and has-voted flags
/// are typed maps held as association lists with pairwise-distinct keys;
/// an absent stake record means 0, an absent tally means `(0, 0)`, an
/// absent has-voted pair means `false`.
pub struct TokenSale {
    /// The single administrator, set exactly once by `initialize`.
    pub admin: Option<u64>,
    /// The staking token the transfer gateway debits and credits.
    pub governance_token: Option<u64>,
    /// Voting-weight policy; `(0, 0)` until it is first written.
    pub vote_weight: VotesWeight,
    /// Quorum configuration; unset until the administrator writes it.
    pub quorum: Option<QuorumRequirements>,
    /// Stake ledger: staked balance per principal.
    pub stakes: Vec<(u64, i128)>,
    /// Sum of all staked balances, maintained incrementally.
    pub total_staked: i128,
    /// Proposal registry, keyed by proposal id.
    pub proposals: Vec<(u32, Proposal)>,
    /// Ballot tallies, keyed by proposal id.
    pub tallies: Vec<(u32, Votes)>,
    /// Has-voted ledger: the set of `(voter, proposal)` pairs that have cast
    /// a ballot.
    pub voted: Vec<(u64, u32)>,
}

impl TokenSale {
    /// The staked balance of `staker`; 0 when no record exists.
    pub open spec fn spec_stake(self, staker: u64) -> i128 {
        match alist_lookup(self.stakes@, staker) {
            Some(amount) => amount,
            None => 0,
        }
    }

    /// The stored proposal under `proposal_id`, if any.
    pub open spec fn spec_proposal(self, proposal_id: u32) -> Option<Proposal> {
        alist_lookup(self.proposals@, proposal_id)
    }

    /// The ballot tally of `proposal_id`; `(0, 0)` when no record exists.
    pub open spec fn spec_tally(self, proposal_id: u32) -> Votes {
        match alist_lookup(self.tallies@, proposal_id) {
            Some(votes) => votes,
            None => Votes { yes_votes: 0, total_votes: 0 },
        }
    }

    /// Whether `voter` has already cast a ballot on `proposal_id`.
    pub open spec fn spec_has_voted(self, voter: u64, proposal_id: u32) -> bool {
        self.voted@.contains((voter, proposal_id))
    }

    /// Eligibility: the staked balance reaches the configured weight. A
    /// `staker_weight` of 0 makes every principal eligible.
    pub open spec fn spec_can_vote(self, voter: u64) -> bool {
        self.spec_stake(voter) >= self.vote_weight.staker_weight as i128
    }

    /// Guard of a successful `cast_vote`: eligible and not yet voted.
    pub open spec fn spec_vote_allowed(self, voter: u64, proposal_id: u32) -> bool {
        self.spec_can_vote(voter) && !self.spec_has_voted(voter, proposal_id)
    }

    /// Who may see the live tally of `proposal_id` at ledger time `now`:
    /// the administrator, anyone who has voted on it, and everyone once the
    /// voting window has closed.
    pub open spec fn spec_votes_visible(self, requester: u64, proposal_id: u32, now: u64) -> bool {
        ||| self.admin == Some(requester)
        ||| self.spec_has_voted(requester, proposal_id)
        ||| (self.spec_proposal(proposal_id) matches Some(p) && p.vote_end_at < now)
    }

    /// Well-formedness: distinct keys in every map, non-negative stake
    /// records, the running total equal to the sum of all stake records,
    /// and each tally accounted for by the has-voted ledger.
    pub open spec fn wf(self) -> bool {
        &&& alist_unique(self.stakes@)
        &&& alist_unique(self.proposals@)
        &&& alist_unique(self.tallies@)
        &&& (forall|i: int, j: int|
            0 <= i < j < self.voted@.len() ==> self.voted@[i] != self.voted@[j])
        &&& (forall|i: int| 0 <= i < self.stakes@.len() ==> self.stakes@[i].1 >= 0)
        &&& self.total_staked == sum_amounts(self.stakes@)
        &&& (forall|id: u32| #[trigger] tally_ok(self.tallies@, self.voted@, id))
    }

    /// Fresh governance state: nothing configured, nothing staked, no
    /// proposals, no ballots.
    pub fn new() -> (s: TokenSale)
        ensures
            s.wf(),
            s.admin is None,
            s.governance_token is None,
            s.vote_weight == (VotesWeight { staker_weight: 0, holder_weight: 0 }),
            s.quorum is None,
            s.total_staked == 0,
            s.stakes@.len() == 0,
            s.proposals@.len() == 0,
            s.tallies@.len() == 0,
            s.voted@.len() == 0,
    {
        let s = TokenSale {
            admin: None,
            governance_token: None,
            vote_weight: VotesWeight { staker_weight: 0, holder_weight: 0 },
            quorum: None,
            stakes: Vec::new(),
            total_staked: 0,
            proposals: Vec::new(),
            tallies: Vec::new(),
            voted: Vec::new(),
        };
        s
    }

    /// Sets the administrator, exactly once; a second call fails and
    /// changes nothing.
    pub fn initialize(&mut self, admin: u64) -> (r: Result<(), GovernanceError>)
        ensures
            match r {
                Ok(()) => {
                    &&& old(self).admin is None
                    &&& *final(self) == (TokenSale { admin: Some(admin), ..*old(self) })
                },
                Err(e) => {
                    &&& e == GovernanceError::AlreadyInitialized
                    &&& old(self).admin is Some
                    &&& *final(self) == *old(self)
                },
            },
            old(self).wf() ==> final(self).wf(),
    {
        if self.admin.is_some() {
            return Err(GovernanceError::AlreadyInitialized);
        }
        self.admin = Some(admin);
        Ok(())
    }

    /// Stores the governance token reference; only the administrator may.
    pub fn set_governance_token(&mut self, caller: u64, token: u64) -> (r: Result<
        (),
        GovernanceError,
    >)
        ensures
            match r {
                Ok(()) => {
                    &&& old(self).admin == Some(caller)
                    &&& *final(self) == (TokenSale {
                        governance_token: Some(token),
                        ..*old(self)
                    })
                },
                Err(e) => {
                    &&& e == GovernanceError::Unauthorized
                    &&& old(self).admin != Some(caller)
                    &&& *final(self) == *old(self)
                },
            },
            old(self).wf() ==> final(self).wf(),
    {
        let is_admin = match self.admin {
            Some(admin) => admin == caller,
            None => false,
        };
        if is_admin {
            self.governance_token = Some(token);
            Ok(())
        } else {
            Err(GovernanceError::Unauthorized)
        }
    }

    /// The stored governance token reference. The store holds no record
    /// until `set_governance_token` has run, so one must exist.
    pub fn get_governance_token(&self) -> (r: u64)
        requires
            self.governance_token is Some,
        ensures
            Some(r) == self.governance_token,
    {
        match self.governance_token {
            Some(token) => token,
            None => 0,  // unreachable under the precondition
        }
    }

    /// The administrator. The store holds no record until `initialize` has
    /// run, so one must exist.
    pub fn get_admin(&self) -> (r: u64)
        requires
            self.admin is Some,
        ensures
            Some(r) == self.admin,
    {
        match self.admin {
            Some(admin) => admin,
            None => 0,  // unreachable under the precondition
        }
    }
}

} // verus!
