use token_governance::contract::TokenSale;
use token_governance::storage_types::{GovernanceError, Votes};

const ADMIN: u64 = 9;
const ALICE: u64 = 1;
const BOB: u64 = 2;
const CAROL: u64 = 3;
const OBSERVER: u64 = 4;

/// Admin set, weight 10, three eligible stakers, proposal 1 open from
/// time 5 until time 10.
fn with_open_proposal() -> TokenSale {
    let mut s = TokenSale::new();
    s.initialize(ADMIN).unwrap();
    s.set_token_vote_weight(10, 0);
    s.stake(ALICE, 10);
    s.stake(BOB, 10);
    s.stake(CAROL, 10);
    s.create_proposal(1, ALICE, "T".to_string(), "D".to_string(), 5, 10, 5)
        .unwrap();
    s
}

#[test]
fn cast_vote_updates_tally_and_flag() {
    let mut s = with_open_proposal();
    assert!(!s.get_user_has_voted(ALICE, 1));
    assert_eq!(s.cast_vote(ALICE, true, 1), Ok(()));
    assert!(s.get_user_has_voted(ALICE, 1));
    assert!(!s.get_user_has_voted(ALICE, 2));
    assert!(!s.get_user_has_voted(BOB, 1));
    assert_eq!(
        s.get_proposal_votes(ADMIN, 1, 6).unwrap(),
        Votes { yes_votes: 1, total_votes: 1 }
    );
    assert_eq!(s.cast_vote(BOB, false, 1), Ok(()));
    assert_eq!(
        s.get_proposal_votes(ADMIN, 1, 6).unwrap(),
        Votes { yes_votes: 1, total_votes: 2 }
    );
}

#[test]
fn second_vote_fails_and_leaves_tally_unchanged() {
    let mut s = with_open_proposal();
    assert_eq!(s.cast_vote(ALICE, true, 1), Ok(()));
    assert_eq!(s.cast_vote(ALICE, true, 1), Err(GovernanceError::AlreadyVoted));
    assert_eq!(s.cast_vote(ALICE, false, 1), Err(GovernanceError::AlreadyVoted));
    assert_eq!(
        s.get_proposal_votes(ADMIN, 1, 6).unwrap(),
        Votes { yes_votes: 1, total_votes: 1 }
    );
    assert!(s.get_user_has_voted(ALICE, 1));
}

#[test]
fn ineligible_voter_is_rejected_without_trace() {
    let mut s = with_open_proposal();
    s.stake(OBSERVER, 9);
    assert_eq!(
        s.cast_vote(OBSERVER, true, 1),
        Err(GovernanceError::NotEligible)
    );
    assert!(!s.get_user_has_voted(OBSERVER, 1));
    assert_eq!(
        s.get_proposal_votes(ADMIN, 1, 6).unwrap(),
        Votes { yes_votes: 0, total_votes: 0 }
    );
}

#[test]
fn votes_are_accepted_after_window_close() {
    // The ballot ledger deliberately never consults the voting window.
    let mut s = with_open_proposal();
    assert_eq!(s.cast_vote(ALICE, true, 1), Ok(()));
    assert_eq!(
        s.get_proposal_votes(ADMIN, 1, 999).unwrap(),
        Votes { yes_votes: 1, total_votes: 1 }
    );
}

#[test]
fn tally_visibility_is_gated_until_close() {
    let mut s = with_open_proposal();
    s.cast_vote(ALICE, true, 1).unwrap();
    // A non-admin who has not voted sees nothing while the window is open
    // (time 10 is still within the window)...
    assert_eq!(
        s.get_proposal_votes(OBSERVER, 1, 10),
        Err(GovernanceError::ResultsNotYetVisible)
    );
    // ... but sees the tally once it has closed,
    assert_eq!(
        s.get_proposal_votes(OBSERVER, 1, 11).unwrap(),
        Votes { yes_votes: 1, total_votes: 1 }
    );
    // while a voter and the administrator see it live.
    assert_eq!(
        s.get_proposal_votes(ALICE, 1, 6).unwrap(),
        Votes { yes_votes: 1, total_votes: 1 }
    );
    assert_eq!(
        s.get_proposal_votes(ADMIN, 1, 6).unwrap(),
        Votes { yes_votes: 1, total_votes: 1 }
    );
}

#[test]
fn tally_of_missing_proposal_is_not_served() {
    let s = with_open_proposal();
    assert_eq!(
        s.get_proposal_votes(ADMIN, 2, 6),
        Err(GovernanceError::ProposalNotFound)
    );
}

#[test]
fn quorum_resolution_scenario() {
    let mut s = with_open_proposal();
    s.set_quorum_requirements(ADMIN, 2, 0).unwrap();
    s.cast_vote(ALICE, true, 1).unwrap();
    s.cast_vote(BOB, true, 1).unwrap();
    s.cast_vote(CAROL, false, 1).unwrap();
    assert_eq!(
        s.get_proposal_votes(ADMIN, 1, 11).unwrap(),
        Votes { yes_votes: 2, total_votes: 3 }
    );
    // total_votes > 2 and yes_votes > total_votes * 0.
    assert_eq!(s.get_is_proposal_passed(1, 11), Ok(true));
}

#[test]
fn resolution_fails_while_window_open() {
    let mut s = with_open_proposal();
    s.set_quorum_requirements(ADMIN, 0, 0).unwrap();
    // vote_end_at is 10; at time 10 the window still counts as open.
    assert_eq!(
        s.get_is_proposal_passed(1, 10),
        Err(GovernanceError::VotingStillOpen)
    );
    assert_eq!(
        s.get_is_proposal_passed(2, 11),
        Err(GovernanceError::ProposalNotFound)
    );
}

#[test]
fn resolution_applies_quorum_rule() {
    let mut s = with_open_proposal();
    // Participation floor not exceeded: 2 votes are not more than 2.
    s.set_quorum_requirements(ADMIN, 2, 0).unwrap();
    s.cast_vote(ALICE, true, 1).unwrap();
    s.cast_vote(BOB, true, 1).unwrap();
    assert_eq!(s.get_is_proposal_passed(1, 11), Ok(false));
    // One more ballot crosses the floor.
    s.cast_vote(CAROL, false, 1).unwrap();
    assert_eq!(s.get_is_proposal_passed(1, 11), Ok(true));
    // With percent_yes as a raw multiplier of 1, yes votes would have to
    // exceed the full total: 2 > 3 fails.
    s.set_quorum_requirements(ADMIN, 2, 1).unwrap();
    assert_eq!(s.get_is_proposal_passed(1, 11), Ok(false));
}
