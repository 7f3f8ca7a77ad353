//! Vote weight policy, ballot ledger and quorum resolver.

use vstd::prelude::*;

use crate::contract::{tally_ok, TokenSale};
use crate::storage_types::{GovernanceError, QuorumRequirements, Votes, VotesWeight};
use crate::store::{
    alist_lookup, alist_unique, lemma_contains_push, lemma_count_push,
    lemma_lookup_absent, lemma_lookup_at_index, lemma_lookup_push, lemma_lookup_update,
};

verus! {

impl TokenSale {
    /// Whether `proposal_id` is stored and its voting window has closed at
    /// ledger time `now`, so that resolution is allowed.
    pub open spec fn spec_resolvable(self, proposal_id: u32, now: u64) -> bool {
        self.spec_proposal(proposal_id) matches Some(p) && p.vote_end_at < now
    }

    /// The quorum rule on the stored tally of `proposal_id`: enough ballots
    /// were cast, and yes votes exceed the configured multiple of the total.
    /// Meaningful once the quorum configuration is set.
    pub open spec fn spec_passed(self, proposal_id: u32) -> bool {
        let quorum = self.quorum->0;
        let tally = self.spec_tally(proposal_id);
        &&& tally.total_votes > quorum.min_total_votes
        &&& tally.yes_votes > tally.total_votes * quorum.percent_yes
    }

    /// Overwrites the voting-weight policy. This operation is deliberately
    /// ungated: any caller may set it.
    pub fn set_token_vote_weight(&mut self, staker_weight: u32, holder_weight: u32)
        ensures
            final(self).vote_weight == (VotesWeight { staker_weight, holder_weight }),
            *final(self) == (TokenSale { vote_weight: final(self).vote_weight, ..*old(self) }),
            old(self).wf() ==> final(self).wf(),
    {
        self.vote_weight = VotesWeight { staker_weight, holder_weight };
    }

    /// The voting-weight policy; `(0, 0)` when it was never set.
    pub fn get_token_vote_weight(&self) -> (r: VotesWeight)
        ensures
            r == self.vote_weight,
    {
        self.vote_weight
    }

    /// Stores the quorum configuration; only the administrator may.
    pub fn set_quorum_requirements(&mut self, caller: u64, min_total_votes: u64, percent_yes: u64)
        -> (r: Result<(), GovernanceError>)
        ensures
            match r {
                Ok(()) => {
                    &&& old(self).admin == Some(caller)
                    &&& final(self).quorum == Some(
                        QuorumRequirements { min_total_votes, percent_yes },
                    )
                    &&& *final(self) == (TokenSale { quorum: final(self).quorum, ..*old(self) })
                },
                Err(e) => {
                    &&& e == GovernanceError::Unauthorized
                    &&& old(self).admin != Some(caller)
                    &&& *final(self) == *old(self)
                },
            },
            old(self).wf() ==> final(self).wf(),
    {
        let is_admin = match self.admin {
            Some(admin) => admin == caller,
            None => false,
        };
        if is_admin {
            self.quorum = Some(QuorumRequirements { min_total_votes, percent_yes });
            Ok(())
        } else {
            Err(GovernanceError::Unauthorized)
        }
    }

    /// The quorum configuration. The store holds no record until
    /// `set_quorum_requirements` has run, so one must exist.
    pub fn get_quorum_requirements(&self) -> (r: QuorumRequirements)
        requires
            self.quorum is Some,
        ensures
            Some(r) == self.quorum,
    {
        match self.quorum {
            Some(quorum) => quorum,
            None => QuorumRequirements { min_total_votes: 0, percent_yes: 0 },  // unreachable under the precondition
        }
    }

    /// Eligibility of `voter`: the staked balance reaches the configured
    /// weight.
    pub fn get_user_can_vote(&self, voter: u64) -> (r: bool)
        requires
            alist_unique(self.stakes@),
        ensures
            r == self.spec_can_vote(voter),
    {
        let staked_amount = self.get_user_stake(voter);
        let stake_weight = self.vote_weight.staker_weight as i128;
        staked_amount >= stake_weight
    }

    /// Whether `voter` has already cast a ballot on `proposal_id`.
    pub fn get_user_has_voted(&self, voter: u64, proposal_id: u32) -> (r: bool)
        ensures
            r == self.spec_has_voted(voter, proposal_id),
    {
        let mut i: usize = 0;
        while i < self.voted.len()
            invariant
                i <= self.voted@.len(),
                forall|j: int| 0 <= j < i ==> self.voted@[j] != (voter, proposal_id),
            decreases self.voted@.len() - i,
        {
            let pair = self.voted[i];
            if pair.0 == voter && pair.1 == proposal_id {
                assert(self.voted@[i as int] == (voter, proposal_id));
                return true;
            }
            i = i + 1;
        }
        proof {
            assert(!self.voted@.contains((voter, proposal_id))) by {
                if self.voted@.contains((voter, proposal_id)) {
                    let j = choose|j: int|
                        0 <= j < self.voted@.len() && self.voted@[j] == (voter, proposal_id);
                    assert(self.voted@[j] != (voter, proposal_id));
                }
            }
        }
        false
    }

    /// The stored tally of `proposal_id`; `(0, 0)` when no ballot was cast.
    pub fn read_proposal_votes(&self, proposal_id: u32) -> (r: Votes)
        requires
            alist_unique(self.tallies@),
        ensures
            r == self.spec_tally(proposal_id),
    {
        let mut i: usize = 0;
        while i < self.tallies.len()
            invariant
                i <= self.tallies@.len(),
                forall|j: int| 0 <= j < i ==> self.tallies@[j].0 != proposal_id,
                alist_unique(self.tallies@),
            decreases self.tallies@.len() - i,
        {
            if self.tallies[i].0 == proposal_id {
                proof {
                    lemma_lookup_at_index(self.tallies@, i as int);
                }
                return self.tallies[i].1;
            }
            i = i + 1;
        }
        proof {
            lemma_lookup_absent(self.tallies@, proposal_id);
        }
        Votes { yes_votes: 0, total_votes: 0 }
    }

    /// Writes the tally record of `proposal_id`, leaving every other
    /// record, and everything outside the tallies, as it was.
    fn write_tally(&mut self, proposal_id: u32, votes: Votes)
        requires
            alist_unique(old(self).tallies@),
        ensures
            alist_unique(final(self).tallies@),
            forall|id: u32| #[trigger] alist_lookup(final(self).tallies@, id) == if id
                == proposal_id {
                Some(votes)
            } else {
                alist_lookup(old(self).tallies@, id)
            },
            *final(self) == (TokenSale { tallies: final(self).tallies, ..*old(self) }),
    {
        let mut i: usize = 0;
        while i < self.tallies.len()
            invariant
                i <= self.tallies@.len(),
                forall|j: int| 0 <= j < i ==> self.tallies@[j].0 != proposal_id,
                alist_unique(self.tallies@),
                *self == *old(self),
            decreases self.tallies@.len() - i,
        {
            if self.tallies[i].0 == proposal_id {
                let entry = (proposal_id, votes);
                proof {
                    assert forall|id: u32|
                        alist_lookup(self.tallies@.update(i as int, entry), id) == if id
                            == proposal_id {
                            Some(votes)
                        } else {
                            alist_lookup(self.tallies@, id)
                        } by {
                        lemma_lookup_update(self.tallies@, i as int, entry, id);
                    }
                    lemma_lookup_update(self.tallies@, i as int, entry, proposal_id);
                }
                self.tallies[i] = entry;
                return ;
            }
            i = i + 1;
        }
        let entry = (proposal_id, votes);
        proof {
            assert forall|id: u32|
                alist_lookup(self.tallies@.push(entry), id) == if id == proposal_id {
                    Some(votes)
                } else {
                    alist_lookup(self.tallies@, id)
                } by {
                lemma_lookup_push(self.tallies@, entry, id);
            }
            lemma_lookup_push(self.tallies@, entry, proposal_id);
        }
        self.tallies.push(entry);
    }

    /// Casts a single-shot ballot: the voter must be eligible and must not
    /// have voted on this proposal before. On success the has-voted flag is
    /// set for good and the proposal's tally grows by one ballot. The
    /// voting window is deliberately not consulted: ballots are accepted
    /// after `vote_end_at` as well.
    pub fn cast_vote(&mut self, voter: u64, yes_or_no: bool, proposal_id: u32) -> (r: Result<
        (),
        GovernanceError,
    >)
        requires
            old(self).wf(),
            old(self).spec_tally(proposal_id).total_votes < u64::MAX,
        ensures
            match r {
                Ok(()) => {
                    &&& old(self).spec_vote_allowed(voter, proposal_id)
                    &&& final(self).spec_has_voted(voter, proposal_id)
                    &&& (forall|v: u64, id: u32|
                        (v, id) != (voter, proposal_id) ==> final(self).spec_has_voted(v, id) == old(
                            self,
                        ).spec_has_voted(v, id))
                    &&& final(self).spec_tally(proposal_id).total_votes == old(self).spec_tally(
                        proposal_id,
                    ).total_votes + 1
                    &&& final(self).spec_tally(proposal_id).yes_votes == old(self).spec_tally(
                        proposal_id,
                    ).yes_votes + (if yes_or_no {
                        1int
                    } else {
                        0int
                    })
                    &&& (forall|id: u32|
                        id != proposal_id ==> final(self).spec_tally(id) == old(self).spec_tally(
                            id,
                        ))
                    &&& *final(self) == (TokenSale {
                        tallies: final(self).tallies,
                        voted: final(self).voted,
                        ..*old(self)
                    })
                },
                Err(e) => {
                    &&& *final(self) == *old(self)
                    &&& ((e == GovernanceError::NotEligible && !old(self).spec_can_vote(voter)) || (
                    e == GovernanceError::AlreadyVoted && old(self).spec_can_vote(voter) && old(
                        self,
                    ).spec_has_voted(voter, proposal_id)))
                },
            },
            final(self).wf(),
    {
        if !self.get_user_can_vote(voter) {
            return Err(GovernanceError::NotEligible);
        }
        if self.get_user_has_voted(voter, proposal_id) {
            return Err(GovernanceError::AlreadyVoted);
        }
        let cur_votes = self.read_proposal_votes(proposal_id);
        proof {
            assert(tally_ok(self.tallies@, self.voted@, proposal_id));
        }
        let new_total_votes = cur_votes.total_votes + 1;
        let new_yes_votes = if yes_or_no {
            cur_votes.yes_votes + 1
        } else {
            cur_votes.yes_votes
        };
        let pair = (voter, proposal_id);
        proof {
            lemma_count_push(self.voted@, pair);
            assert forall|v: u64, id: u32|
                self.voted@.push(pair).contains((v, id)) == (self.voted@.contains((v, id)) || (
                v,
                id,
            ) == pair) by {
                lemma_contains_push(self.voted@, pair, (v, id));
            }
            assert forall|i: int, j: int|
                0 <= i < j < self.voted@.push(pair).len() implies self.voted@.push(pair)[i]
                != self.voted@.push(pair)[j] by {
                if j == self.voted@.len() {
                    assert(self.voted@.push(pair)[i] == self.voted@[i]);
                    if self.voted@[i] == pair {
                        assert(self.voted@.contains(pair));
                    }
                } else {
                    assert(self.voted@.push(pair)[i] == self.voted@[i]);
                    assert(self.voted@.push(pair)[j] == self.voted@[j]);
                }
            }
        }
        self.voted.push(pair);
        self.write_tally(
            proposal_id,
            Votes { yes_votes: new_yes_votes, total_votes: new_total_votes },
        );
        proof {
            assert forall|id: u32| tally_ok(self.tallies@, self.voted@, id) by {
                assert(tally_ok(old(self).tallies@, old(self).voted@, id));
            }
        }
        Ok(())
    }

    /// The tally of `proposal_id`, gated: a requester who is not the
    /// administrator and has not voted on it may see it only once the
    /// voting window has closed.
    pub fn get_proposal_votes(&self, requester: u64, proposal_id: u32, now: u64) -> (r: Result<
        Votes,
        GovernanceError,
    >)
        requires
            self.wf(),
            self.admin is Some,
        ensures
            match r {
                Ok(v) => {
                    &&& self.spec_proposal(proposal_id) is Some
                    &&& self.spec_votes_visible(requester, proposal_id, now)
                    &&& v == self.spec_tally(proposal_id)
                },
                Err(e) => {
                    ||| (e == GovernanceError::ProposalNotFound && self.spec_proposal(proposal_id)
                        is None)
                    ||| (e == GovernanceError::ResultsNotYetVisible && self.spec_proposal(
                        proposal_id,
                    ) is Some && !self.spec_votes_visible(requester, proposal_id, now))
                },
            },
    {
        let requester_has_voted = self.get_user_has_voted(requester, proposal_id);
        let admin = self.get_admin();
        let proposal = match self.get_proposal(proposal_id) {
            Ok(p) => p,
            Err(e) => {
                return Err(e);
            },
        };
        let voting_is_ongoing = proposal.vote_end_at >= now;
        if requester != admin {
            if !requester_has_voted && voting_is_ongoing {
                return Err(GovernanceError::ResultsNotYetVisible);
            }
        }
        Ok(self.read_proposal_votes(proposal_id))
    }

    /// Resolves a proposal against the quorum rule. Fails while the voting
    /// window is still open; once it has closed, reports whether more than
    /// `min_total_votes` ballots were cast and yes votes exceed
    /// `total_votes * percent_yes`.
    pub fn get_is_proposal_passed(&self, proposal_id: u32, now: u64) -> (r: Result<
        bool,
        GovernanceError,
    >)
        requires
            self.wf(),
            self.spec_resolvable(proposal_id, now) ==> self.quorum is Some,
            self.spec_resolvable(proposal_id, now) ==> self.spec_tally(proposal_id).total_votes
                * (self.quorum->0).percent_yes <= u64::MAX,
        ensures
            match r {
                Ok(passed) => {
                    &&& self.spec_resolvable(proposal_id, now)
                    &&& passed == self.spec_passed(proposal_id)
                },
                Err(e) => {
                    ||| (e == GovernanceError::ProposalNotFound && self.spec_proposal(proposal_id)
                        is None)
                    ||| (e == GovernanceError::VotingStillOpen && (self.spec_proposal(proposal_id)
                        matches Some(p) && p.vote_end_at >= now))
                },
            },
    {
        let proposal = match self.get_proposal(proposal_id) {
            Ok(p) => p,
            Err(e) => {
                return Err(e);
            },
        };
        if proposal.vote_end_at >= now {
            return Err(GovernanceError::VotingStillOpen);
        }
        let quorum_requirement = self.get_quorum_requirements();
        let voting_outcome = self.read_proposal_votes(proposal_id);
        let passed = voting_outcome.total_votes > quorum_requirement.min_total_votes
            && voting_outcome.yes_votes > voting_outcome.total_votes
            * quorum_requirement.percent_yes;
        Ok(passed)
    }
}

} // verus!
