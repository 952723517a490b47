use frame_support::traits::ConstU32;
use frame_support::BoundedVec;
use quadratic_funding::sqrt::floor_sqrt;
use quadratic_funding::tally::sum_of_roots;
use quadratic_funding::{balance_as_128, Config, Pallet, VoteDetails};

fn name_of(bytes: &[u8]) -> BoundedVec<u8, ConstU32<32>> {
    bytes.to_vec().try_into().unwrap()
}

fn round_with_votes(amounts: &[u128]) -> Pallet {
    let mut ledger = Pallet::new(Config { max_proposals: 8, max_votes: 8 });
    assert!(ledger.start_round(1).is_ok());
    assert!(ledger.create_proposal(1, name_of(b"p1"), 1).is_ok());
    let mut voter: u64 = 100;
    for amount in amounts {
        assert!(ledger.vote(voter, 1, 1, *amount).is_ok());
        voter += 1;
    }
    ledger
}

#[test]
fn floor_square_roots() {
    assert_eq!(floor_sqrt(0), 0);
    assert_eq!(floor_sqrt(1), 1);
    assert_eq!(floor_sqrt(2), 1);
    assert_eq!(floor_sqrt(3), 1);
    assert_eq!(floor_sqrt(4), 2);
    assert_eq!(floor_sqrt(80), 8);
    assert_eq!(floor_sqrt(81), 9);
    assert_eq!(floor_sqrt(100), 10);
    assert_eq!(floor_sqrt(u128::MAX), u64::MAX as u128);
    assert_eq!(floor_sqrt(u128::MAX - 1), u64::MAX as u128);
    assert_eq!(floor_sqrt((u64::MAX as u128) * (u64::MAX as u128) - 1), u64::MAX as u128 - 1);
}

#[test]
fn sum_of_roots_adds_each_root() {
    let votes = vec![
        VoteDetails { account: 1u64, balance: 1u128 },
        VoteDetails { account: 2u64, balance: 4u128 },
        VoteDetails { account: 3u64, balance: 9u128 },
    ];
    assert_eq!(sum_of_roots(&votes), 6);
    assert_eq!(sum_of_roots(&Vec::new()), 0);
}

#[test]
fn tally_of_one_four_nine_is_36() {
    let mut ledger = round_with_votes(&[1, 4, 9]);
    assert!(ledger.tally_fits(1));
    assert_eq!(ledger.calculate_vote_value(1, 1), 36);
    assert_eq!(ledger.proposal(1).unwrap().vote_value, 36);
}

#[test]
fn tally_of_two_and_two_is_4() {
    let mut ledger = round_with_votes(&[2, 2]);
    assert_eq!(ledger.calculate_vote_value(1, 1), 4);
    assert_eq!(ledger.proposal(1).unwrap().vote_value, 4);
}

#[test]
fn two_votes_of_100_score_400_when_the_round_ends() {
    let mut ledger = Pallet::new(Config { max_proposals: 8, max_votes: 8 });
    let admin = 1;
    assert!(ledger.start_round(admin).is_ok());
    assert!(ledger.create_proposal(admin, name_of(b"p1"), 1).is_ok());
    assert!(ledger.vote(2, 1, 1, 100).is_ok());
    assert!(ledger.vote(3, 1, 1, 100).is_ok());
    assert!(ledger.tally_fits(1));
    assert!(ledger.end_round(admin).is_ok());
    assert_eq!(ledger.proposal(1).unwrap().vote_value, 400);
    assert_eq!(ledger.proposal(1).unwrap().owner, admin);
    assert_eq!(ledger.proposal(1).unwrap().name, name_of(b"p1"));
}

#[test]
fn many_small_votes_beat_one_large() {
    let mut many = round_with_votes(&[25, 25, 25, 25]);
    let mut one = round_with_votes(&[100]);
    assert_eq!(many.calculate_vote_value(1, 1), 400);
    assert_eq!(one.calculate_vote_value(1, 1), 100);
}

#[test]
fn end_round_scores_every_proposal_of_the_round() {
    let mut ledger = Pallet::new(Config { max_proposals: 8, max_votes: 8 });
    assert!(ledger.start_round(1).is_ok());
    assert!(ledger.start_round(2).is_ok());
    assert!(ledger.create_proposal(1, name_of(b"a"), 1).is_ok());
    assert!(ledger.create_proposal(1, name_of(b"b"), 1).is_ok());
    assert!(ledger.create_proposal(2, name_of(b"c"), 2).is_ok());
    assert!(ledger.vote(5, 1, 1, 16).is_ok());
    assert!(ledger.vote(5, 1, 2, 49).is_ok());
    assert!(ledger.vote(6, 1, 2, 1).is_ok());
    assert!(ledger.vote(6, 2, 3, 81).is_ok());
    assert!(ledger.end_round(1).is_ok());
    assert_eq!(ledger.proposal(1).unwrap().vote_value, 16);
    assert_eq!(ledger.proposal(2).unwrap().vote_value, 64);
    // the other round has not been tallied
    assert_eq!(ledger.proposal(3).unwrap().vote_value, 0);
    assert!(ledger.end_round(2).is_ok());
    assert_eq!(ledger.proposal(3).unwrap().vote_value, 81);
}

#[test]
fn score_is_computed_once() {
    let mut ledger = round_with_votes(&[1, 4, 9]);
    let first = ledger.calculate_vote_value(1, 1);
    let second = ledger.calculate_vote_value(1, 1);
    assert_eq!(first, 36);
    assert_eq!(second, 36);
    // a recorded score is not worked out again, whatever is contributed later
    assert!(ledger.vote(200, 1, 1, 10_000).is_ok());
    assert_eq!(ledger.calculate_vote_value(1, 1), 36);
    assert_eq!(ledger.proposal(1).unwrap().vote_value, 36);
}

#[test]
fn score_of_zero_is_computed_again() {
    let mut ledger = round_with_votes(&[]);
    assert_eq!(ledger.calculate_vote_value(1, 1), 0);
    assert_eq!(ledger.calculate_vote_value(1, 1), 0);
    assert_eq!(ledger.proposal(1).unwrap().vote_value, 0);
    assert!(ledger.vote(200, 1, 1, 0).is_ok());
    assert_eq!(ledger.calculate_vote_value(1, 1), 0);
    assert!(ledger.vote(200, 1, 1, 49).is_ok());
    assert_eq!(ledger.calculate_vote_value(1, 1), 49);
}

#[test]
fn score_of_an_unknown_proposal_is_zero() {
    let mut ledger = round_with_votes(&[4]);
    assert_eq!(ledger.calculate_vote_value(9, 1), 0);
    assert!(ledger.proposal(9).is_none());
    // votes are counted by round
    assert_eq!(ledger.calculate_vote_value(1, 2), 0);
}

#[test]
fn tally_votes_records_scores() {
    let mut ledger = round_with_votes(&[9, 16]);
    ledger.tally_votes(1);
    assert_eq!(ledger.proposal(1).unwrap().vote_value, 49);
    let _ = ledger.take_events();
    ledger.tally_votes(2);
    assert_eq!(ledger.take_events(), vec![quadratic_funding::Event::LogErrNoProposalsForRound]);
}

#[test]
fn largest_score_that_fits() {
    let mut ledger = round_with_votes(&[u128::MAX]);
    assert!(ledger.tally_fits(1));
    let root = u64::MAX as u128;
    assert_eq!(ledger.calculate_vote_value(1, 1), root * root);
}

#[test]
fn tally_that_does_not_fit_is_told_apart() {
    let ledger = round_with_votes(&[u128::MAX, 1]);
    assert!(!ledger.tally_fits(1));
    // a round without proposals always fits
    assert!(ledger.tally_fits(2));
    let small = round_with_votes(&[u64::MAX as u128, u64::MAX as u128]);
    assert!(small.tally_fits(1));
}

#[test]
fn balance_that_did_not_convert_counts_as_zero() {
    assert_eq!(balance_as_128(Some(77)), 77);
    assert_eq!(balance_as_128(Some(u128::MAX)), u128::MAX);
    assert_eq!(balance_as_128(None), 0);
}
