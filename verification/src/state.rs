//! The ledger as a mathematical value, and what each operation makes of it.

use crate::tally::{score, Vote};
use crate::types::{
    AccountId, Balance, Config, Error, Event, ProposalDetails, ProposalName, ProposalNo, RoundNo,
    VoteDetails,
};
use vstd::prelude::*;

verus! {

/// A proposal as the ledger holds it.
pub type Proposal = ProposalDetails<AccountId>;

/// The number after `no`: one more, and 0 after the largest.
pub open spec fn next_no(no: u32) -> u32 {
    if no == u32::MAX {
        0
    } else {
        (no + 1) as u32
    }
}

/// Everything the ledger holds.
#[verifier::ext_equal]
pub struct State {
    /// The capacities that the host has set.
    pub config: Config,
    /// The number that the next round gets.
    pub next_round_no: RoundNo,
    /// The number that the next proposal gets.
    pub next_proposal_no: ProposalNo,
    /// For each administrator, the round that they opened last and have not closed.
    pub admin: Map<AccountId, RoundNo>,
    /// The rounds on record, each with its flag: open or not.
    pub round: Map<RoundNo, bool>,
    /// The contributions, by round and proposal, oldest first.
    pub vote: Map<(RoundNo, ProposalNo), Seq<Vote>>,
    /// The proposals by number.
    pub proposal: Map<ProposalNo, Proposal>,
    /// Each round's index: the numbers of its proposals, in the order of registration.
    pub proposals: Map<RoundNo, Seq<ProposalNo>>,
    /// The notifications emitted and not yet collected, oldest first.
    pub events: Seq<Event>,
}

impl State {
    /// The ledger before any operation: both counters at 1, nothing on record.
    pub open spec fn init(config: Config) -> State {
        State {
            config,
            next_round_no: 1,
            next_proposal_no: 1,
            admin: Map::empty(),
            round: Map::empty(),
            vote: Map::empty(),
            proposal: Map::empty(),
            proposals: Map::empty(),
            events: Seq::empty(),
        }
    }

    /// No index and no list of contributions exceeds its capacity.
    pub open spec fn wf(self) -> bool {
        &&& forall|r: RoundNo|
            self.proposals.contains_key(r) ==> #[trigger] self.proposals[r].len()
                <= self.config.max_proposals
        &&& forall|k: (RoundNo, ProposalNo)|
            self.vote.contains_key(k) ==> #[trigger] self.vote[k].len() <= self.config.max_votes
    }

    /// The round is on record and open.
    pub open spec fn round_active(self, round_no: RoundNo) -> bool {
        self.round.contains_key(round_no) && self.round[round_no]
    }

    /// The round's index; empty where the round has none.
    pub open spec fn index_of(self, round_no: RoundNo) -> Seq<ProposalNo> {
        if self.proposals.contains_key(round_no) {
            self.proposals[round_no]
        } else {
            Seq::empty()
        }
    }

    /// The proposal's number stands in the round's index.
    pub open spec fn is_registered(self, proposal_no: ProposalNo, round_no: RoundNo) -> bool {
        self.index_of(round_no).contains(proposal_no)
    }

    /// The contributions to the proposal in the round; empty where there are none.
    pub open spec fn votes_for(self, proposal_no: ProposalNo, round_no: RoundNo) -> Seq<Vote> {
        if self.vote.contains_key((round_no, proposal_no)) {
            self.vote[(round_no, proposal_no)]
        } else {
            Seq::empty()
        }
    }

    /// The ledger after `who` has opened a round. The round gets the number
    /// `self.next_round_no`.
    pub open spec fn start_round(self, who: AccountId) -> State {
        State {
            next_round_no: next_no(self.next_round_no),
            admin: self.admin.insert(who, self.next_round_no),
            round: self.round.insert(self.next_round_no, true),
            events: self.events.push(Event::NewVotingRound(self.next_round_no)),
            ..self
        }
    }

    /// What `who` is told on asking to close their round.
    pub open spec fn end_round_result(self, who: AccountId) -> Result<(), Error> {
        if !self.admin.contains_key(who) {
            Err(Error::NotAdmin)
        } else if self.admin[who] == 0 {
            Err(Error::InvalidRoundNo)
        } else {
            Ok(())
        }
    }

    /// The ledger after `who` has asked to close their round: on success
    /// the binding and the round's record are gone and the round is tallied.
    pub open spec fn end_round(self, who: AccountId) -> State {
        if self.end_round_result(who) is Ok {
            let round_no = self.admin[who];
            State {
                admin: self.admin.remove(who),
                round: self.round.remove(round_no),
                ..self
            }.tally_votes(round_no)
        } else {
            self
        }
    }

    /// What a caller is told on asking to register a proposal in a round.
    pub open spec fn create_proposal_result(self, round_no: RoundNo) -> Result<(), Error> {
        if !self.round.contains_key(round_no) {
            Err(Error::InvalidRoundNo)
        } else if !self.round[round_no] {
            Err(Error::RoundInactive)
        } else if self.is_registered(self.next_proposal_no, round_no) {
            Err(Error::DuplicateProposal)
        } else if self.index_of(round_no).len() >= self.config.max_proposals {
            Err(Error::ProposalsOverflow)
        } else {
            Ok(())
        }
    }

    /// The ledger after `who` has asked to register a proposal in a round.
    ///
    /// Where the round is open the proposal gets the number
    /// `self.next_proposal_no`, and that number is spent whatever follows.
    /// Where the round's index is full the proposal's record is kept
    /// although the index does not take its number.
    pub open spec fn create_proposal(
        self,
        who: AccountId,
        name: ProposalName,
        round_no: RoundNo,
    ) -> State {
        let proposal_no = self.next_proposal_no;
        let details = ProposalDetails { name, owner: who, vote_value: 0 };
        if !self.round_active(round_no) {
            self
        } else if self.is_registered(proposal_no, round_no) {
            State { next_proposal_no: next_no(proposal_no), ..self }
        } else if self.index_of(round_no).len() >= self.config.max_proposals {
            State {
                next_proposal_no: next_no(proposal_no),
                proposal: self.proposal.insert(proposal_no, details),
                ..self
            }
        } else {
            State {
                next_proposal_no: next_no(proposal_no),
                proposal: self.proposal.insert(proposal_no, details),
                proposals: self.proposals.insert(
                    round_no,
                    self.index_of(round_no).push(proposal_no),
                ),
                events: self.events.push(Event::ProposalRegistered(proposal_no, round_no)),
                ..self
            }
        }
    }

    /// What a caller is told on asking to contribute to a proposal in a round.
    pub open spec fn vote_result(self, round_no: RoundNo, proposal_no: ProposalNo) -> Result<
        (),
        Error,
    > {
        if !self.round_active(round_no) {
            Err(Error::InvalidRoundNo)
        } else if !self.is_registered(proposal_no, round_no) {
            Err(Error::ProposalNotRegistered)
        } else if self.votes_for(proposal_no, round_no).len() >= self.config.max_votes {
            Err(Error::VotesOverflow)
        } else {
            Ok(())
        }
    }

    /// The ledger after `who` has asked to contribute `balance` to a proposal
    /// in a round: on success the contribution is the last of its list.
    pub open spec fn vote(
        self,
        who: AccountId,
        round_no: RoundNo,
        proposal_no: ProposalNo,
        balance: Balance,
    ) -> State {
        if self.vote_result(round_no, proposal_no) is Ok {
            State {
                vote: self.vote.insert(
                    (round_no, proposal_no),
                    self.votes_for(proposal_no, round_no).push(
                        VoteDetails { account: who, balance },
                    ),
                ),
                ..self
            }
        } else {
            self
        }
    }

    /// The proposal is on record and no score has been recorded for it.
    pub open spec fn is_unscored(self, proposal_no: ProposalNo) -> bool {
        self.proposal.contains_key(proposal_no) && self.proposal[proposal_no].vote_value == 0
    }

    /// The score of the proposal that is worked out from its contributions
    /// in the round fits in 128 bits, if one is to be worked out.
    pub open spec fn score_fits(self, proposal_no: ProposalNo, round_no: RoundNo) -> bool {
        self.is_unscored(proposal_no) ==> score(self.votes_for(proposal_no, round_no))
            <= u128::MAX
    }

    /// The proposal's score: 0 for a proposal that is not on record, the
    /// recorded score where one is recorded, and else the quadratic score of
    /// its contributions in the round.
    pub open spec fn vote_value(self, proposal_no: ProposalNo, round_no: RoundNo) -> u128 {
        if !self.proposal.contains_key(proposal_no) {
            0
        } else if self.proposal[proposal_no].vote_value != 0 {
            self.proposal[proposal_no].vote_value
        } else {
            score(self.votes_for(proposal_no, round_no)) as u128
        }
    }

    /// The proposal's record with its score filled in.
    pub open spec fn scored(self, proposal_no: ProposalNo, round_no: RoundNo) -> Proposal {
        ProposalDetails {
            vote_value: self.vote_value(proposal_no, round_no),
            ..self.proposal[proposal_no]
        }
    }

    /// The ledger after the proposal's score has been asked for: a score that
    /// had to be worked out is recorded.
    pub open spec fn calculate_vote_value(
        self,
        proposal_no: ProposalNo,
        round_no: RoundNo,
    ) -> State {
        if self.is_unscored(proposal_no) {
            State {
                proposal: self.proposal.insert(proposal_no, self.scored(proposal_no, round_no)),
                ..self
            }
        } else {
            self
        }
    }

    /// Every score that a tally of the round would work out fits in 128 bits.
    pub open spec fn tally_fits(self, round_no: RoundNo) -> bool {
        forall|i: int|
            0 <= i < self.index_of(round_no).len() ==> self.score_fits(
                #[trigger] self.index_of(round_no)[i],
                round_no,
            )
    }

    /// The ledger after the score of each proposal in `index` has been asked for.
    pub open spec fn tally_over(self, index: Seq<ProposalNo>, round_no: RoundNo) -> State {
        State {
            proposal: Map::new(
                |p: ProposalNo| self.proposal.contains_key(p),
                |p: ProposalNo|
                    if index.contains(p) {
                        self.scored(p, round_no)
                    } else {
                        self.proposal[p]
                    },
            ),
            ..self
        }
    }

    /// The ledger after the round has been tallied: each proposal in its
    /// index has its score recorded, and a round without an index is
    /// reported.
    pub open spec fn tally_votes(self, round_no: RoundNo) -> State {
        if self.proposals.contains_key(round_no) {
            self.tally_over(self.proposals[round_no], round_no)
        } else {
            State { events: self.events.push(Event::LogErrNoProposalsForRound), ..self }
        }
    }

    /// Asking for the score of the next proposal of an index takes a tally
    /// over the proposals before it to the tally that includes it, and where
    /// its score fitted before the tally began, it still fits.
    pub proof fn lemma_tally_step(self, index: Seq<ProposalNo>, i: int, round_no: RoundNo)
        requires
            0 <= i < index.len(),
        ensures
            self.tally_over(index.take(i), round_no).calculate_vote_value(index[i], round_no)
                == self.tally_over(index.take(i + 1), round_no),
            self.score_fits(index[i], round_no) ==> self.tally_over(
                index.take(i),
                round_no,
            ).score_fits(index[i], round_no),
    {
        let before = self.tally_over(index.take(i), round_no);
        let after = self.tally_over(index.take(i + 1), round_no);
        let p = index[i];
        assert(index.take(i + 1) =~= index.take(i).push(p));
        assert(before.votes_for(p, round_no) == self.votes_for(p, round_no));
        assert forall|q: ProposalNo| index.take(i + 1).contains(q) <==> (index.take(i).contains(q)
            || q == p) by {
            if index.take(i).contains(q) {
                let j = choose|j: int| 0 <= j < i && index.take(i)[j] == q;
                assert(index.take(i + 1)[j] == q);
            }
            if q == p {
                assert(index.take(i + 1)[i] == q);
            }
        }
        assert(before.calculate_vote_value(p, round_no).proposal =~= after.proposal);
    }
}

} // verus!
