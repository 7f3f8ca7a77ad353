use token_governance::contract::TokenSale;
use token_governance::storage_types::{GovernanceError, QuorumRequirements, VotesWeight};

const ADMIN: u64 = 9;
const ALICE: u64 = 1;
const BOB: u64 = 2;
const CAROL: u64 = 3;

fn initialized() -> TokenSale {
    let mut s = TokenSale::new();
    s.initialize(ADMIN).unwrap();
    s
}

#[test]
fn initialize_sets_admin_once() {
    let mut s = TokenSale::new();
    assert!(s.initialize(ADMIN).is_ok());
    assert_eq!(s.get_admin(), ADMIN);
    assert_eq!(s.initialize(ALICE), Err(GovernanceError::AlreadyInitialized));
    assert_eq!(s.get_admin(), ADMIN);
}

#[test]
fn governance_token_is_admin_gated() {
    let mut s = initialized();
    assert_eq!(
        s.set_governance_token(ALICE, 77),
        Err(GovernanceError::Unauthorized)
    );
    assert!(s.set_governance_token(ADMIN, 77).is_ok());
    assert_eq!(s.get_governance_token(), 77);
}

#[test]
fn quorum_requirements_are_admin_gated() {
    let mut s = initialized();
    assert_eq!(
        s.set_quorum_requirements(ALICE, 2, 0),
        Err(GovernanceError::Unauthorized)
    );
    assert!(s.set_quorum_requirements(ADMIN, 2, 1).is_ok());
    assert_eq!(
        s.get_quorum_requirements(),
        QuorumRequirements { min_total_votes: 2, percent_yes: 1 }
    );
}

#[test]
fn vote_weight_defaults_to_zero_and_is_ungated() {
    let mut s = TokenSale::new();
    assert_eq!(
        s.get_token_vote_weight(),
        VotesWeight { staker_weight: 0, holder_weight: 0 }
    );
    // With weight 0 every principal is eligible by default.
    assert!(s.get_user_can_vote(ALICE));
    s.set_token_vote_weight(100, 7);
    assert_eq!(
        s.get_token_vote_weight(),
        VotesWeight { staker_weight: 100, holder_weight: 7 }
    );
    assert!(!s.get_user_can_vote(ALICE));
}

#[test]
fn total_staked_tracks_sum_of_stakes() {
    let mut s = TokenSale::new();
    s.stake(ALICE, 150);
    s.stake(BOB, 50);
    s.stake(ALICE, 25);
    assert_eq!(s.get_user_stake(ALICE), 175);
    assert_eq!(s.get_user_stake(BOB), 50);
    assert_eq!(s.get_total_staked(), 225);
    s.unstake(ALICE, 100).unwrap();
    assert_eq!(s.get_user_stake(ALICE), 75);
    assert_eq!(s.get_total_staked(), s.get_user_stake(ALICE) + s.get_user_stake(BOB));
    s.unstake(BOB, 50).unwrap();
    assert_eq!(s.get_total_staked(), 75);
    assert_eq!(s.get_user_stake(CAROL), 0);
}

#[test]
fn unstake_boundary() {
    let mut s = TokenSale::new();
    s.stake(ALICE, 40);
    assert_eq!(
        s.unstake(ALICE, 41),
        Err(GovernanceError::InsufficientStake)
    );
    assert_eq!(s.get_user_stake(ALICE), 40);
    assert_eq!(s.get_total_staked(), 40);
    assert_eq!(s.unstake(ALICE, 40), Ok(()));
    assert_eq!(s.get_user_stake(ALICE), 0);
    assert_eq!(s.get_total_staked(), 0);
    assert_eq!(s.unstake(ALICE, 1), Err(GovernanceError::InsufficientStake));
}

#[test]
fn eligibility_follows_stake_weight() {
    let mut s = TokenSale::new();
    s.set_token_vote_weight(100, 0);
    s.stake(ALICE, 150);
    assert!(s.get_user_can_vote(ALICE));
    s.stake(BOB, 50);
    assert!(!s.get_user_can_vote(BOB));
}

#[test]
fn create_proposal_validates_and_stores() {
    let mut s = TokenSale::new();
    s.set_token_vote_weight(10, 0);
    s.stake(ALICE, 10);
    let now: u64 = 100;
    assert_eq!(
        s.create_proposal(1, ALICE, "T".to_string(), "D".to_string(), now, now + 50, now),
        Ok(())
    );
    let p = s.get_proposal(1).unwrap();
    assert_eq!(p.proposal_id, 1);
    assert_eq!(p.creator, ALICE);
    assert_eq!(p.title, "T");
    assert_eq!(p.description, "D");
    assert_eq!(p.vote_start_at, now);
    assert_eq!(p.vote_end_at, now + 50);
}

#[test]
fn create_proposal_overwrites_same_id() {
    let mut s = TokenSale::new();
    s.stake(ALICE, 1);
    let now: u64 = 100;
    assert_eq!(
        s.create_proposal(1, ALICE, "T".to_string(), "D".to_string(), now, now + 50, now),
        Ok(())
    );
    // A second proposal under the same id succeeds unconditionally and
    // overwrites the first.
    assert_eq!(
        s.create_proposal(1, ALICE, "U".to_string(), "E".to_string(), now, now + 90, now),
        Ok(())
    );
    let p = s.get_proposal(1).unwrap();
    assert_eq!(p.title, "U");
    assert_eq!(p.vote_end_at, now + 90);
}

#[test]
fn create_proposal_rejections() {
    let mut s = TokenSale::new();
    s.set_token_vote_weight(10, 0);
    s.stake(ALICE, 10);
    let now: u64 = 100;
    // Ineligible creator.
    assert_eq!(
        s.create_proposal(1, BOB, "T".to_string(), String::new(), now, now + 50, now),
        Err(GovernanceError::NotEligible)
    );
    // Window already closed.
    assert_eq!(
        s.create_proposal(1, ALICE, "T".to_string(), String::new(), 0, now, now),
        Err(GovernanceError::InvalidProposal)
    );
    // Window ends before it starts.
    assert_eq!(
        s.create_proposal(1, ALICE, "T".to_string(), String::new(), now + 60, now + 50, now),
        Err(GovernanceError::InvalidProposal)
    );
    // Non-positive id.
    assert_eq!(
        s.create_proposal(0, ALICE, "T".to_string(), String::new(), now, now + 50, now),
        Err(GovernanceError::InvalidProposal)
    );
    // Empty title.
    assert_eq!(
        s.create_proposal(1, ALICE, String::new(), String::new(), now, now + 50, now),
        Err(GovernanceError::InvalidProposal)
    );
    // Nothing was stored by the rejected requests.
    assert!(matches!(
        s.get_proposal(1),
        Err(GovernanceError::ProposalNotFound)
    ));
}

#[test]
fn get_proposal_missing() {
    let s = TokenSale::new();
    assert!(matches!(
        s.get_proposal(5),
        Err(GovernanceError::ProposalNotFound)
    ));
}
