use frame_support::traits::ConstU32;
use frame_support::BoundedVec;
use quadratic_funding::{Config, Error, Event, Pallet, VoteDetails};

fn name_of(bytes: &[u8]) -> BoundedVec<u8, ConstU32<32>> {
    bytes.to_vec().try_into().unwrap()
}

fn ledger_with(max_proposals: u32, max_votes: u32) -> Pallet {
    Pallet::new(Config { max_proposals, max_votes })
}

#[test]
fn proposal_is_recorded_and_indexed() {
    let mut ledger = ledger_with(4, 4);
    assert!(ledger.start_round(1).is_ok());
    assert!(ledger.create_proposal(5, name_of(b"p1"), 1).is_ok());
    let details = ledger.proposal(1).unwrap();
    assert_eq!(details.owner, 5);
    assert_eq!(details.name, name_of(b"p1"));
    assert_eq!(details.vote_value, 0);
    assert!(ledger.is_proposal_registered(1, 1));
    assert!(!ledger.is_proposal_registered(2, 1));
    assert_eq!(ledger.next_proposal_no(), 2);
    assert_eq!(
        ledger.take_events(),
        vec![Event::NewVotingRound(1), Event::ProposalRegistered(1, 1)]
    );
}

#[test]
fn proposal_event_carries_proposal_then_round() {
    let mut ledger = ledger_with(4, 4);
    assert!(ledger.start_round(1).is_ok());
    assert!(ledger.start_round(2).is_ok());
    assert!(ledger.create_proposal(1, name_of(b"a"), 2).is_ok());
    let events = ledger.take_events();
    assert_eq!(events[2], Event::ProposalRegistered(1, 2));
}

#[test]
fn proposal_needs_a_round_on_record() {
    let mut ledger = ledger_with(4, 4);
    assert_eq!(ledger.create_proposal(1, name_of(b"p"), 1), Err(Error::InvalidRoundNo));
    assert_eq!(ledger.next_proposal_no(), 1);
    assert!(ledger.proposal(1).is_none());
    assert!(ledger.start_round(1).is_ok());
    assert_eq!(ledger.create_proposal(1, name_of(b"p"), 2), Err(Error::InvalidRoundNo));
    assert_eq!(ledger.next_proposal_no(), 1);
}

#[test]
fn proposal_for_a_closed_round_is_refused() {
    let mut ledger = ledger_with(4, 4);
    assert!(ledger.start_round(1).is_ok());
    assert!(ledger.end_round(1).is_ok());
    assert_eq!(ledger.create_proposal(1, name_of(b"late"), 1), Err(Error::InvalidRoundNo));
    assert_eq!(ledger.next_proposal_no(), 1);
}

#[test]
fn proposal_numbers_are_not_reused() {
    let mut ledger = ledger_with(8, 4);
    assert!(ledger.start_round(1).is_ok());
    assert!(ledger.start_round(2).is_ok());
    assert!(ledger.create_proposal(1, name_of(b"a"), 1).is_ok());
    assert!(ledger.create_proposal(2, name_of(b"b"), 2).is_ok());
    assert!(ledger.create_proposal(1, name_of(b"c"), 1).is_ok());
    assert!(ledger.is_proposal_registered(1, 1));
    assert!(ledger.is_proposal_registered(2, 2));
    assert!(ledger.is_proposal_registered(3, 1));
    assert_eq!(ledger.proposal(1).unwrap().name, name_of(b"a"));
    assert_eq!(ledger.proposal(2).unwrap().name, name_of(b"b"));
    assert_eq!(ledger.proposal(3).unwrap().name, name_of(b"c"));
    assert_eq!(ledger.next_proposal_no(), 4);
}

#[test]
fn each_round_has_an_index_of_its_own() {
    let mut ledger = ledger_with(1, 4);
    assert!(ledger.start_round(1).is_ok());
    assert!(ledger.start_round(2).is_ok());
    assert!(ledger.create_proposal(1, name_of(b"a"), 1).is_ok());
    // the first round's index is full, the second round's is not
    assert!(ledger.create_proposal(2, name_of(b"b"), 2).is_ok());
    assert!(ledger.is_proposal_registered(1, 1));
    assert!(!ledger.is_proposal_registered(1, 2));
    assert!(ledger.is_proposal_registered(2, 2));
    assert!(!ledger.is_proposal_registered(2, 1));
    assert_eq!(ledger.vote(9, 2, 1, 100), Err(Error::ProposalNotRegistered));
    assert_eq!(ledger.vote(9, 1, 2, 100), Err(Error::ProposalNotRegistered));
}

#[test]
fn full_index_refuses_but_keeps_the_record() {
    let mut ledger = ledger_with(2, 4);
    assert!(ledger.start_round(1).is_ok());
    assert!(ledger.create_proposal(1, name_of(b"a"), 1).is_ok());
    assert!(ledger.create_proposal(1, name_of(b"b"), 1).is_ok());
    let _ = ledger.take_events();
    assert_eq!(ledger.create_proposal(3, name_of(b"c"), 1), Err(Error::ProposalsOverflow));
    assert!(!ledger.is_proposal_registered(3, 1));
    let orphan = ledger.proposal(3).unwrap();
    assert_eq!(orphan.owner, 3);
    assert_eq!(orphan.name, name_of(b"c"));
    assert_eq!(ledger.next_proposal_no(), 4);
    assert!(ledger.take_events().is_empty());
    assert_eq!(ledger.vote(1, 1, 3, 9), Err(Error::ProposalNotRegistered));
}

#[test]
fn no_capacity_no_proposal() {
    let mut ledger = ledger_with(0, 4);
    assert!(ledger.start_round(1).is_ok());
    assert_eq!(ledger.create_proposal(1, name_of(b"a"), 1), Err(Error::ProposalsOverflow));
    let _ = ledger.take_events();
    assert!(ledger.end_round(1).is_ok());
    assert_eq!(ledger.take_events(), vec![Event::LogErrNoProposalsForRound]);
}

#[test]
fn name_may_have_32_bytes() {
    let mut ledger = ledger_with(2, 2);
    let long = name_of(&[7u8; 32]);
    assert!(ledger.start_round(1).is_ok());
    assert!(ledger.create_proposal(1, long.clone(), 1).is_ok());
    assert_eq!(ledger.proposal(1).unwrap().name, long);
    assert_eq!(ledger.proposal(1).unwrap().name.len(), 32);
}

#[test]
fn vote_needs_an_open_round() {
    let mut ledger = ledger_with(4, 4);
    assert_eq!(ledger.vote(1, 1, 1, 10), Err(Error::InvalidRoundNo));
    assert!(ledger.start_round(1).is_ok());
    assert!(ledger.create_proposal(1, name_of(b"a"), 1).is_ok());
    assert_eq!(ledger.vote(1, 2, 1, 10), Err(Error::InvalidRoundNo));
    assert!(ledger.end_round(1).is_ok());
    assert_eq!(ledger.vote(1, 1, 1, 10), Err(Error::InvalidRoundNo));
    assert!(ledger.get_votes_for_proposal(1, 1).is_empty());
}

#[test]
fn vote_needs_a_registered_proposal() {
    let mut ledger = ledger_with(4, 4);
    assert!(ledger.start_round(1).is_ok());
    assert_eq!(ledger.vote(1, 1, 1, 10), Err(Error::ProposalNotRegistered));
    assert!(ledger.create_proposal(1, name_of(b"a"), 1).is_ok());
    assert_eq!(ledger.vote(1, 1, 2, 10), Err(Error::ProposalNotRegistered));
    assert!(ledger.vote(1, 1, 1, 10).is_ok());
}

#[test]
fn votes_are_kept_in_order() {
    let mut ledger = ledger_with(4, 4);
    assert!(ledger.start_round(1).is_ok());
    assert!(ledger.create_proposal(1, name_of(b"a"), 1).is_ok());
    assert!(ledger.vote(7, 1, 1, 10).is_ok());
    assert!(ledger.vote(8, 1, 1, 20).is_ok());
    assert!(ledger.vote(7, 1, 1, 30).is_ok());
    assert_eq!(
        ledger.get_votes_for_proposal(1, 1),
        vec![
            VoteDetails { account: 7u64, balance: 10u128 },
            VoteDetails { account: 8u64, balance: 20u128 },
            VoteDetails { account: 7u64, balance: 30u128 },
        ]
    );
    assert!(ledger.get_votes_for_proposal(1, 2).is_empty());
    assert!(ledger.get_votes_for_proposal(2, 1).is_empty());
}

#[test]
fn full_list_refuses_the_next_vote() {
    let mut ledger = ledger_with(4, 2);
    assert!(ledger.start_round(1).is_ok());
    assert!(ledger.create_proposal(1, name_of(b"a"), 1).is_ok());
    assert!(ledger.create_proposal(1, name_of(b"b"), 1).is_ok());
    assert!(ledger.vote(7, 1, 1, 10).is_ok());
    assert!(ledger.vote(7, 1, 1, 10).is_ok());
    assert_eq!(ledger.vote(8, 1, 1, 10), Err(Error::VotesOverflow));
    assert_eq!(ledger.get_votes_for_proposal(1, 1).len(), 2);
    // the other proposal has a list of its own
    assert!(ledger.vote(8, 1, 2, 10).is_ok());
}

#[test]
fn no_capacity_no_vote() {
    let mut ledger = ledger_with(4, 0);
    assert!(ledger.start_round(1).is_ok());
    assert!(ledger.create_proposal(1, name_of(b"a"), 1).is_ok());
    assert_eq!(ledger.vote(8, 1, 1, 10), Err(Error::VotesOverflow));
    assert!(ledger.get_votes_for_proposal(1, 1).is_empty());
}

#[test]
fn vote_keys_do_not_collide() {
    assert_eq!(Pallet::create_vote_key(0, 0), 0);
    assert_eq!(Pallet::create_vote_key(0, 1), 1);
    assert_eq!(Pallet::create_vote_key(1, 0), 1u64 << 32);
    assert_eq!(Pallet::create_vote_key(u32::MAX, u32::MAX), u64::MAX);
    assert_ne!(Pallet::create_vote_key(1, 2), Pallet::create_vote_key(2, 1));
}
