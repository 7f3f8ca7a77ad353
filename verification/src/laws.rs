//! The ledger invariants and the single-shot ballot law, stated on their
//! own. Every operation requires and re-establishes `TokenSale::wf`, so
//! these hold of every state a sequence of operations can reach from
//! `TokenSale::new`.

use vstd::prelude::*;

use crate::contract::{tally_ok, TokenSale};
use crate::store::{count_votes, sum_amounts};

verus! {

/// Total-stake invariant: in every well-formed state the recorded global
/// total equals the sum of all individual stake records, however the state
/// was reached by stake and unstake operations.
pub proof fn lemma_total_staked_is_stake_sum(s: TokenSale)
    requires
        s.wf(),
    ensures
        s.total_staked == sum_amounts(s.stakes@),
{
}

/// Ballot-ledger invariant: in every well-formed state the stored tally of
/// a proposal equals the number of `(voter, proposal)` pairs recorded as
/// having voted on it, and yes votes never exceed total votes.
pub proof fn lemma_tally_counts_ballots(s: TokenSale, proposal_id: u32)
    requires
        s.wf(),
    ensures
        s.spec_tally(proposal_id).total_votes == count_votes(s.voted@, proposal_id),
        s.spec_tally(proposal_id).yes_votes <= s.spec_tally(proposal_id).total_votes,
{
    assert(tally_ok(s.tallies@, s.voted@, proposal_id));
}

/// Ballots are single-shot by design: a state reached by a successful
/// `cast_vote` (the voter was eligible, the has-voted flag is now set, and
/// neither stakes nor policy moved) no longer allows the same pair, and
/// still finds the voter eligible — so a repeated `cast_vote` must return
/// `AlreadyVoted` and leave the state unchanged.
pub proof fn lemma_vote_is_single_shot(pre: TokenSale, post: TokenSale, voter: u64, proposal_id: u32)
    requires
        pre.spec_vote_allowed(voter, proposal_id),
        post.spec_has_voted(voter, proposal_id),
        forall|p: u64| post.spec_stake(p) == pre.spec_stake(p),
        post.vote_weight == pre.vote_weight,
    ensures
        !post.spec_vote_allowed(voter, proposal_id),
        post.spec_can_vote(voter),
{
}

} // verus!
