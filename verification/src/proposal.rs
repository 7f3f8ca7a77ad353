//! Proposal registry: immutable proposal metadata keyed by proposal id.

use vstd::prelude::*;

use crate::contract::TokenSale;
use crate::storage_types::{GovernanceError, Proposal};
use crate::store::{
    alist_lookup, alist_unique, lemma_lookup_absent, lemma_lookup_at_index, lemma_lookup_push,
    lemma_lookup_update,
};

verus! {

/// Validity of a proposal request at ledger time `now`: the voting window
/// must close in the future and not before it starts, the id must be
/// positive and the title non-empty.
pub open spec fn spec_proposal_valid(
    proposal_id: u32,
    title: Seq<char>,
    vote_start_at: u64,
    vote_end_at: u64,
    now: u64,
) -> bool {
    &&& vote_end_at > now
    &&& vote_end_at >= vote_start_at
    &&& proposal_id > 0
    &&& title.len() > 0
}

impl TokenSale {
    /// Index of the registry record of `proposal_id`, if one exists.
    fn find_proposal(&self, proposal_id: u32) -> (r: Option<usize>)
        ensures
            match r {
                Some(i) => i < self.proposals@.len() && self.proposals@[i as int].0 == proposal_id,
                None => forall|j: int|
                    0 <= j < self.proposals@.len() ==> self.proposals@[j].0 != proposal_id,
            },
    {
        let mut i: usize = 0;
        while i < self.proposals.len()
            invariant
                i <= self.proposals@.len(),
                forall|j: int| 0 <= j < i ==> self.proposals@[j].0 != proposal_id,
            decreases self.proposals@.len() - i,
        {
            if self.proposals[i].0 == proposal_id {
                return Some(i);
            }
            i = i + 1;
        }
        None
    }

    /// Stores `proposal` under its id, unconditionally overwriting any
    /// record already there; nothing outside the registry moves.
    fn store_proposal(&mut self, proposal: Proposal)
        requires
            alist_unique(old(self).proposals@),
        ensures
            alist_unique(final(self).proposals@),
            final(self).spec_proposal(proposal.proposal_id) == Some(proposal),
            forall|id: u32|
                id != proposal.proposal_id ==> final(self).spec_proposal(id) == old(
                    self,
                ).spec_proposal(id),
            *final(self) == (TokenSale { proposals: final(self).proposals, ..*old(self) }),
    {
        let key = proposal.proposal_id;
        let ghost entry = (key, proposal);
        match self.find_proposal(key) {
            Some(i) => {
                proof {
                    assert forall|id: u32|
                        alist_lookup(self.proposals@.update(i as int, entry), id) == if id == key {
                            Some(proposal)
                        } else {
                            alist_lookup(self.proposals@, id)
                        } by {
                        lemma_lookup_update(self.proposals@, i as int, entry, id);
                    }
                    lemma_lookup_update(self.proposals@, i as int, entry, key);
                }
                self.proposals[i] = (key, proposal);
            },
            None => {
                proof {
                    assert forall|id: u32|
                        alist_lookup(self.proposals@.push(entry), id) == if id == key {
                            Some(proposal)
                        } else {
                            alist_lookup(self.proposals@, id)
                        } by {
                        lemma_lookup_push(self.proposals@, entry, id);
                    }
                    lemma_lookup_push(self.proposals@, entry, key);
                }
                self.proposals.push((key, proposal));
            },
        }
    }

    /// Registers a proposal. The creator must be vote-eligible and the
    /// request valid at ledger time `now`; a valid request is stored under
    /// its id, overwriting any proposal already held there.
    pub fn create_proposal(
        &mut self,
        proposal_id: u32,
        creator: u64,
        title: String,
        description: String,
        vote_start_at: u64,
        vote_end_at: u64,
        now: u64,
    ) -> (r: Result<(), GovernanceError>)
        requires
            old(self).wf(),
        ensures
            match r {
                Ok(()) => {
                    &&& old(self).spec_can_vote(creator)
                    &&& spec_proposal_valid(proposal_id, title@, vote_start_at, vote_end_at, now)
                    &&& final(self).spec_proposal(proposal_id) == Some(
                        Proposal {
                            proposal_id,
                            creator,
                            title,
                            description,
                            vote_start_at,
                            vote_end_at,
                        },
                    )
                    &&& forall|id: u32|
                        id != proposal_id ==> final(self).spec_proposal(id) == old(
                            self,
                        ).spec_proposal(id)
                    &&& *final(self) == (TokenSale {
                        proposals: final(self).proposals,
                        ..*old(self)
                    })
                },
                Err(e) => {
                    &&& *final(self) == *old(self)
                    &&& ((e == GovernanceError::NotEligible && !old(self).spec_can_vote(creator))
                        || (e == GovernanceError::InvalidProposal && old(self).spec_can_vote(
                        creator,
                    ) && !spec_proposal_valid(proposal_id, title@, vote_start_at, vote_end_at, now)))
                },
            },
            final(self).wf(),
    {
        if !self.get_user_can_vote(creator) {
            return Err(GovernanceError::NotEligible);
        }
        if vote_end_at <= now || vote_end_at < vote_start_at || proposal_id == 0
            || title.as_str().is_empty() {
            return Err(GovernanceError::InvalidProposal);
        }
        let proposal = Proposal {
            proposal_id,
            creator,
            title,
            description,
            vote_start_at,
            vote_end_at,
        };
        self.store_proposal(proposal);
        Ok(())
    }

    /// The stored proposal under `proposal_id`; fails when none exists.
    pub fn get_proposal(&self, proposal_id: u32) -> (r: Result<&Proposal, GovernanceError>)
        requires
            alist_unique(self.proposals@),
        ensures
            match r {
                Ok(p) => self.spec_proposal(proposal_id) == Some(*p),
                Err(e) => {
                    &&& e == GovernanceError::ProposalNotFound
                    &&& self.spec_proposal(proposal_id) is None
                },
            },
    {
        match self.find_proposal(proposal_id) {
            Some(i) => {
                proof {
                    lemma_lookup_at_index(self.proposals@, i as int);
                }
                Ok(&self.proposals[i].1)
            },
            None => {
                proof {
                    lemma_lookup_absent(self.proposals@, proposal_id);
                }
                Err(GovernanceError::ProposalNotFound)
            },
        }
    }
}

} // verus!
