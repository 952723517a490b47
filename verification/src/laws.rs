//! What holds of the ledger whatever is asked of it.

use crate::state::{next_no, State};
use crate::types::{AccountId, Balance, Error, ProposalName, ProposalNo, RoundNo};
use vstd::prelude::*;

verus! {

/// Where a counter stands that started at `seed` and was moved on `steps` times.
pub open spec fn counter_after(seed: u32, steps: nat) -> u32 {
    ((seed + steps) % 0x1_0000_0000) as u32
}

/// Moving a counter on once more is one more step.
pub proof fn lemma_counter_step(seed: u32, steps: nat)
    ensures
        counter_after(seed, 0) == seed,
        counter_after(seed, steps + 1) == next_no(counter_after(seed, steps)),
{
    let m = 0x1_0000_0000int;
    let a = seed + steps;
    assert(a == m * (a / m) + a % m) by (nonlinear_arith)
        requires
            m == 0x1_0000_0000int,
    ;
    assert(0 <= a % m < m);
    if a % m == m - 1 {
        assert((a + 1) % m == 0) by (nonlinear_arith)
            requires
                a == m * (a / m) + (m - 1),
                m == 0x1_0000_0000int,
        ;
    } else {
        assert((a + 1) % m == a % m + 1) by (nonlinear_arith)
            requires
                a == m * (a / m) + a % m,
                0 <= a % m < m - 1,
                m == 0x1_0000_0000int,
        ;
    }
}

/// A counter does not come back to a value within fewer than 2^32 steps.
pub proof fn lemma_counter_distinct(seed: u32, i: nat, j: nat)
    requires
        i < j,
        j - i < 0x1_0000_0000,
    ensures
        counter_after(seed, i) != counter_after(seed, j),
{
    let m = 0x1_0000_0000int;
    let a = seed + i;
    let b = seed + j;
    assert(a == m * (a / m) + a % m && b == m * (b / m) + b % m) by (nonlinear_arith)
        requires
            m == 0x1_0000_0000int,
    ;
    if a % m == b % m {
        assert(false) by (nonlinear_arith)
            requires
                b - a == m * (b / m - a / m),
                0 < b - a < m,
        ;
    }
}

/// The ledger after each of `callers` has opened a round, in that order.
pub open spec fn start_rounds(s: State, callers: Seq<AccountId>) -> State
    decreases callers.len(),
{
    if callers.len() == 0 {
        s
    } else {
        start_rounds(s, callers.drop_last()).start_round(callers.last())
    }
}

/// The number of the round that the call at place `k` of `callers` opens.
pub open spec fn issued_round(s: State, callers: Seq<AccountId>, k: int) -> RoundNo {
    start_rounds(s, callers.take(k)).next_round_no
}

/// The call at place `k` opens the round whose number is `k` steps on from
/// where the counter stood before the first call.
pub proof fn lemma_issued_round(s: State, callers: Seq<AccountId>, k: int)
    requires
        0 <= k <= callers.len(),
    ensures
        issued_round(s, callers, k) == counter_after(s.next_round_no, k as nat),
    decreases k,
{
    lemma_counter_step(s.next_round_no, 0);
    if k > 0 {
        lemma_issued_round(s, callers, k - 1);
        assert(callers.take(k).drop_last() =~= callers.take(k - 1));
        lemma_counter_step(s.next_round_no, (k - 1) as nat);
    }
}

/// The numbers of the rounds that successive calls of `start_round` open go
/// up by one from call to call, with 0 after the largest number; so two
/// calls fewer than 2^32 calls apart open rounds of different numbers.
pub proof fn lemma_round_numbers_increase(s: State, callers: Seq<AccountId>, i: int, j: int)
    requires
        0 <= i < j < callers.len(),
    ensures
        issued_round(s, callers, i + 1) == next_no(issued_round(s, callers, i)),
        j - i < 0x1_0000_0000 ==> issued_round(s, callers, i) != issued_round(s, callers, j),
{
    lemma_issued_round(s, callers, i);
    lemma_issued_round(s, callers, i + 1);
    lemma_issued_round(s, callers, j);
    lemma_counter_step(s.next_round_no, i as nat);
    if j - i < 0x1_0000_0000 {
        lemma_counter_distinct(s.next_round_no, i as nat, j as nat);
    }
}

/// Only `start_round` moves the round counter, and only `create_proposal`
/// the proposal counter.
pub proof fn lemma_counters_stay(
    s: State,
    who: AccountId,
    name: ProposalName,
    round_no: RoundNo,
    proposal_no: ProposalNo,
    balance: Balance,
)
    ensures
        s.start_round(who).next_proposal_no == s.next_proposal_no,
        s.end_round(who).next_round_no == s.next_round_no,
        s.end_round(who).next_proposal_no == s.next_proposal_no,
        s.create_proposal(who, name, round_no).next_round_no == s.next_round_no,
        s.vote(who, round_no, proposal_no, balance).next_round_no == s.next_round_no,
        s.vote(who, round_no, proposal_no, balance).next_proposal_no == s.next_proposal_no,
        s.calculate_vote_value(proposal_no, round_no).next_round_no == s.next_round_no,
        s.calculate_vote_value(proposal_no, round_no).next_proposal_no == s.next_proposal_no,
        s.tally_votes(round_no).next_round_no == s.next_round_no,
        s.tally_votes(round_no).next_proposal_no == s.next_proposal_no,
{
}

/// Whoever is bound to no round cannot close one: the answer is `NotAdmin`
/// and nothing changes.
pub proof fn lemma_end_round_needs_binding(s: State, who: AccountId)
    requires
        !s.admin.contains_key(who),
    ensures
        s.end_round_result(who) == Err::<(), Error>(Error::NotAdmin),
        s.end_round(who) == s,
{
}

/// A proposal is refused for its round exactly where the round is not on
/// record (`InvalidRoundNo`) or on record but not open (`RoundInactive`),
/// and nothing changes then. Where the round is open, the proposal gets the
/// number at which the counter stands and the counter moves on.
pub proof fn lemma_create_proposal_round_check(
    s: State,
    who: AccountId,
    name: ProposalName,
    round_no: RoundNo,
)
    ensures
        s.create_proposal_result(round_no) == Err::<(), Error>(Error::InvalidRoundNo)
            <==> !s.round.contains_key(round_no),
        s.create_proposal_result(round_no) == Err::<(), Error>(Error::RoundInactive) <==> (
        s.round.contains_key(round_no) && !s.round[round_no]),
        !s.round_active(round_no) ==> s.create_proposal(who, name, round_no) == s,
        s.round_active(round_no) ==> s.create_proposal(who, name, round_no).next_proposal_no
            == next_no(s.next_proposal_no),
        s.create_proposal_result(round_no) is Ok ==> s.create_proposal(
            who,
            name,
            round_no,
        ).is_registered(s.next_proposal_no, round_no),
{
    if s.create_proposal_result(round_no) is Ok {
        let after = s.create_proposal(who, name, round_no);
        let index = s.index_of(round_no).push(s.next_proposal_no);
        assert(after.index_of(round_no) == index);
        assert(index[index.len() - 1] == s.next_proposal_no);
    }
}

impl State {
    /// The ledger holds a record under the number, or the number stands in
    /// the index of some round.
    pub open spec fn knows_proposal(self, proposal_no: ProposalNo) -> bool {
        self.proposal.contains_key(proposal_no) || exists|r: RoundNo|
            self.is_registered(proposal_no, r)
    }

    /// The proposal counter started at 1 and has been moved on `spent`
    /// times, and every proposal number that the ledger knows is one that
    /// the counter stood at before.
    pub open spec fn proposals_issued(self, spent: nat) -> bool {
        &&& self.next_proposal_no == counter_after(1, spent)
        &&& forall|p: ProposalNo| #[trigger]
            self.knows_proposal(p) ==> exists|k: nat|
                k < spent && p == #[trigger] counter_after(1, k)
    }
}

/// A ledger with nothing on record has issued no proposal number.
pub proof fn lemma_init_proposals_issued(config: crate::types::Config)
    ensures
        State::init(config).proposals_issued(0),
{
    let s = State::init(config);
    lemma_counter_step(1, 0);
    assert forall|p: ProposalNo| !#[trigger] s.knows_proposal(p) by {
        assert forall|r: RoundNo| !s.is_registered(p, r) by {
            assert(s.index_of(r) =~= Seq::empty());
        }
    }
}

/// While fewer than 2^32 proposal numbers have been issued, the next one is
/// fresh: the ledger knows no proposal under it, so that registering a
/// proposal neither fails with `DuplicateProposal` nor replaces a record.
pub proof fn lemma_next_proposal_is_fresh(s: State, spent: nat, round_no: RoundNo)
    requires
        s.proposals_issued(spent),
        spent < 0x1_0000_0000,
    ensures
        !s.knows_proposal(s.next_proposal_no),
        s.create_proposal_result(round_no) != Err::<(), Error>(Error::DuplicateProposal),
{
    if s.knows_proposal(s.next_proposal_no) {
        let k = choose|k: nat| k < spent && s.next_proposal_no == #[trigger] counter_after(1, k);
        lemma_counter_distinct(1, k, spent);
    }
    if s.is_registered(s.next_proposal_no, round_no) {
        assert(s.knows_proposal(s.next_proposal_no));
    }
}

/// Registering a proposal issues one number where the round is open and
/// none where it is not; what the ledger knows stays within the numbers issued.
pub proof fn lemma_create_proposal_issues(
    s: State,
    spent: nat,
    who: AccountId,
    name: ProposalName,
    round_no: RoundNo,
)
    requires
        s.proposals_issued(spent),
    ensures
        s.round_active(round_no) ==> s.create_proposal(who, name, round_no).proposals_issued(
            spent + 1,
        ),
        !s.round_active(round_no) ==> s.create_proposal(who, name, round_no).proposals_issued(
            spent,
        ),
{
    let after = s.create_proposal(who, name, round_no);
    if s.round_active(round_no) {
        lemma_counter_step(1, spent);
        assert forall|p: ProposalNo| #[trigger] after.knows_proposal(p) implies exists|k: nat|
            k < spent + 1 && p == #[trigger] counter_after(1, k) by {
            if p == s.next_proposal_no {
                assert(p == counter_after(1, spent));
            } else {
                if after.proposal.contains_key(p) {
                    assert(s.proposal.contains_key(p));
                } else {
                    let r = choose|r: RoundNo| after.is_registered(p, r);
                    let j = choose|j: int|
                        0 <= j < after.index_of(r).len() && after.index_of(r)[j] == p;
                    assert(s.index_of(r).contains(p)) by {
                        if r == round_no && after.index_of(r) != s.index_of(r) {
                            assert(after.index_of(r) == s.index_of(r).push(s.next_proposal_no));
                            assert(s.index_of(r)[j] == p);
                        } else {
                            assert(after.index_of(r) == s.index_of(r));
                        }
                    }
                    assert(s.is_registered(p, r));
                }
                assert(s.knows_proposal(p));
                let k = choose|k: nat| k < spent && p == #[trigger] counter_after(1, k);
                assert(k < spent + 1);
            }
        }
    }
}

/// No operation but registering a proposal issues a proposal number or
/// adds to the proposals that the ledger knows.
pub proof fn lemma_other_operations_issue_none(
    s: State,
    spent: nat,
    who: AccountId,
    round_no: RoundNo,
    proposal_no: ProposalNo,
    balance: Balance,
)
    requires
        s.proposals_issued(spent),
    ensures
        s.start_round(who).proposals_issued(spent),
        s.vote(who, round_no, proposal_no, balance).proposals_issued(spent),
        s.calculate_vote_value(proposal_no, round_no).proposals_issued(spent),
        s.tally_votes(round_no).proposals_issued(spent),
        s.end_round(who).proposals_issued(spent),
{
    lemma_same_proposals_issued(s, s.start_round(who), spent);
    lemma_same_proposals_issued(s, s.vote(who, round_no, proposal_no, balance), spent);
    lemma_same_proposals_issued(s, s.calculate_vote_value(proposal_no, round_no), spent);
    lemma_same_proposals_issued(s, s.tally_votes(round_no), spent);
    lemma_same_proposals_issued(s, s.end_round(who), spent);
}

/// Two ledgers with the same counter, the same indices and records under
/// the same numbers have issued the same proposal numbers.
proof fn lemma_same_proposals_issued(s: State, t: State, spent: nat)
    requires
        s.proposals_issued(spent),
        t.next_proposal_no == s.next_proposal_no,
        t.proposals == s.proposals,
        t.proposal.dom() =~= s.proposal.dom(),
    ensures
        t.proposals_issued(spent),
{
    assert forall|p: ProposalNo| #[trigger] t.knows_proposal(p) implies exists|k: nat|
        k < spent && p == #[trigger] counter_after(1, k) by {
        if t.proposal.contains_key(p) {
            assert(s.proposal.dom().contains(p));
        } else {
            let r = choose|r: RoundNo| t.is_registered(p, r);
            assert(s.is_registered(p, r));
        }
        assert(s.knows_proposal(p));
    }
}

/// With the round open, a contribution is refused with
/// `ProposalNotRegistered` exactly where the proposal's number is not in the
/// round's index, and with `VotesOverflow` exactly where it is and the
/// proposal's list already holds as many contributions as it can. A
/// refusal changes nothing; a contribution that is taken is the last of its list.
pub proof fn lemma_vote_refusals(
    s: State,
    who: AccountId,
    round_no: RoundNo,
    proposal_no: ProposalNo,
    balance: Balance,
)
    requires
        s.wf(),
        s.round_active(round_no),
    ensures
        s.vote_result(round_no, proposal_no) == Err::<(), Error>(Error::ProposalNotRegistered)
            <==> !s.index_of(round_no).contains(proposal_no),
        s.vote_result(round_no, proposal_no) == Err::<(), Error>(Error::VotesOverflow) <==> (
        s.index_of(round_no).contains(proposal_no) && s.votes_for(proposal_no, round_no).len()
            == s.config.max_votes),
        s.vote_result(round_no, proposal_no) is Err ==> s.vote(
            who,
            round_no,
            proposal_no,
            balance,
        ) == s,
        s.vote_result(round_no, proposal_no) is Ok ==> s.vote(
            who,
            round_no,
            proposal_no,
            balance,
        ).votes_for(proposal_no, round_no) == s.votes_for(proposal_no, round_no).push(
            crate::types::VoteDetails { account: who, balance },
        ),
{
}

/// Where no contribution to a proposal of the round is 2^64 or more, the
/// round can be tallied: every score fits in 128 bits.
pub proof fn lemma_small_contributions_tally(s: State, round_no: RoundNo)
    requires
        s.wf(),
        forall|p: ProposalNo, i: int|
            0 <= i < s.votes_for(p, round_no).len() ==> (#[trigger] s.votes_for(
                p,
                round_no,
            )[i]).balance <= u64::MAX,
    ensures
        s.tally_fits(round_no),
{
    assert forall|i: int| 0 <= i < s.index_of(round_no).len() implies s.score_fits(
        #[trigger] s.index_of(round_no)[i],
        round_no,
    ) by {
        let p = s.index_of(round_no)[i];
        let votes = s.votes_for(p, round_no);
        if s.vote.contains_key((round_no, p)) {
            assert(s.vote[(round_no, p)].len() <= s.config.max_votes);
        }
        crate::tally::lemma_small_contributions_fit(votes);
    }
}

/// Asking twice for a proposal's score, with no contribution in between,
/// gives the same score twice, and the second call changes nothing. Where
/// the score is not 0, the second call finds it recorded.
pub proof fn lemma_vote_value_is_kept(s: State, proposal_no: ProposalNo, round_no: RoundNo)
    ensures
        s.calculate_vote_value(proposal_no, round_no).vote_value(proposal_no, round_no)
            == s.vote_value(proposal_no, round_no),
        s.calculate_vote_value(proposal_no, round_no).calculate_vote_value(
            proposal_no,
            round_no,
        ) == s.calculate_vote_value(proposal_no, round_no),
        s.vote_value(proposal_no, round_no) != 0 ==> !s.calculate_vote_value(
            proposal_no,
            round_no,
        ).is_unscored(proposal_no),
{
    let once = s.calculate_vote_value(proposal_no, round_no);
    let twice = once.calculate_vote_value(proposal_no, round_no);
    assert(once.votes_for(proposal_no, round_no) == s.votes_for(proposal_no, round_no));
    assert(twice.proposal =~= once.proposal);
}

/// A proposal without contributions scores 0, and so does one whose
/// contributions are all 0. Such a score is not told apart from none: asking
/// for it records nothing new, and the next call works it out again.
pub proof fn lemma_zero_score_is_not_kept(s: State, proposal_no: ProposalNo, round_no: RoundNo)
    requires
        s.is_unscored(proposal_no),
        forall|i: int|
            0 <= i < s.votes_for(proposal_no, round_no).len() ==> (#[trigger] s.votes_for(
                proposal_no,
                round_no,
            )[i]).balance == 0,
    ensures
        s.vote_value(proposal_no, round_no) == 0,
        s.calculate_vote_value(proposal_no, round_no) == s,
        s.calculate_vote_value(proposal_no, round_no).is_unscored(proposal_no),
{
    let votes = s.votes_for(proposal_no, round_no);
    lemma_root_sum_of_zeros(votes);
    assert(crate::tally::score(votes) == 0) by (nonlinear_arith)
        requires
            crate::tally::score(votes) == crate::tally::root_sum(votes) * crate::tally::root_sum(
                votes,
            ),
            crate::tally::root_sum(votes) == 0,
    ;
    assert(s.calculate_vote_value(proposal_no, round_no).proposal =~= s.proposal);
}

/// Contributions of 0 have roots of 0.
proof fn lemma_root_sum_of_zeros(votes: Seq<crate::tally::Vote>)
    requires
        forall|i: int| 0 <= i < votes.len() ==> (#[trigger] votes[i]).balance == 0,
    ensures
        crate::tally::root_sum(votes) == 0,
    decreases votes.len(),
{
    if votes.len() > 0 {
        lemma_root_sum_of_zeros(votes.drop_last());
        assert(crate::sqrt::is_floor_sqrt(0, 0)) by (nonlinear_arith);
        crate::sqrt::lemma_isqrt_is(0, 0);
    }
}

/// Closing a round records the score of each proposal in its index, and
/// leaves the round neither open nor bound to the caller.
pub proof fn lemma_end_round_scores(s: State, who: AccountId, proposal_no: ProposalNo)
    requires
        s.end_round_result(who) is Ok,
        s.is_registered(proposal_no, s.admin[who]),
        s.proposal.contains_key(proposal_no),
    ensures
        s.end_round(who).proposal[proposal_no].vote_value == s.vote_value(
            proposal_no,
            s.admin[who],
        ),
        !s.end_round(who).round_active(s.admin[who]),
        !s.end_round(who).admin.contains_key(who),
{
    let round_no = s.admin[who];
    let closed = State {
        admin: s.admin.remove(who),
        round: s.round.remove(round_no),
        ..s
    };
    assert(closed.index_of(round_no) == s.index_of(round_no));
    assert(closed.votes_for(proposal_no, round_no) == s.votes_for(proposal_no, round_no));
}

} // verus!
