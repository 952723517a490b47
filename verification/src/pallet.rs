//! The executable ledger.

use crate::state::{next_no, Proposal, State};
use crate::tally::{sum_of_roots, Vote};
use crate::types::{
    AccountId, Balance, Config, DefaultNo, Error, Event, ProposalDetails, ProposalName,
    ProposalNo, RoundNo, VoteDetails,
};
use std::collections::HashMap;
use vstd::prelude::*;

verus! {

/// The key under which the contributions to a proposal in a round are kept:
/// the round's number in the upper 32 bits, the proposal's in the lower.
pub open spec fn vote_key(round_no: RoundNo, proposal_no: ProposalNo) -> u64 {
    (round_no as int * 0x1_0000_0000 + proposal_no as int) as u64
}

/// Different pairs of round and proposal have different keys.
pub proof fn lemma_vote_key_injective(r1: RoundNo, p1: ProposalNo, r2: RoundNo, p2: ProposalNo)
    ensures
        vote_key(r1, p1) == vote_key(r2, p2) <==> r1 == r2 && p1 == p2,
{
}

/// The ledger: rounds, proposals, contributions and the notifications that
/// wait to be collected.
pub struct Pallet {
    config: Config,
    next_round_no: RoundNo,
    next_proposal_no: ProposalNo,
    admin: HashMap<AccountId, RoundNo>,
    round: HashMap<RoundNo, bool>,
    vote: HashMap<u64, Vec<Vote>>,
    proposal: HashMap<ProposalNo, Proposal>,
    proposals: HashMap<RoundNo, Vec<ProposalNo>>,
    events: Vec<Event>,
}

impl View for Pallet {
    type V = State;

    closed spec fn view(&self) -> State {
        State {
            config: self.config,
            next_round_no: self.next_round_no,
            next_proposal_no: self.next_proposal_no,
            admin: self.admin@,
            round: self.round@,
            vote: Map::new(
                |k: (RoundNo, ProposalNo)| self.vote@.contains_key(vote_key(k.0, k.1)),
                |k: (RoundNo, ProposalNo)| self.vote@[vote_key(k.0, k.1)]@,
            ),
            proposal: self.proposal@,
            proposals: Map::new(
                |r: RoundNo| self.proposals@.contains_key(r),
                |r: RoundNo| self.proposals@[r]@,
            ),
            events: self.events@,
        }
    }
}

impl Pallet {
    /// No index and no list of contributions exceeds its capacity.
    pub open spec fn wf(&self) -> bool {
        self@.wf()
    }

    /// A ledger with nothing on record, for the capacities given.
    pub fn new(config: Config) -> (pallet: Pallet)
        ensures
            pallet@ == State::init(config),
            pallet.wf(),
    {
        let pallet = Pallet {
            config,
            next_round_no: DefaultNo(),
            next_proposal_no: DefaultNo(),
            admin: HashMap::new(),
            round: HashMap::new(),
            vote: HashMap::new(),
            proposal: HashMap::new(),
            proposals: HashMap::new(),
            events: Vec::new(),
        };
        proof {
            assert(pallet@ =~= State::init(config));
        }
        pallet
    }

    /// A ledger with nothing on record whose counters stand where the
    /// caller says: one that takes up the numbering of an earlier ledger.
    pub fn with_counters(
        config: Config,
        next_round_no: RoundNo,
        next_proposal_no: ProposalNo,
    ) -> (pallet: Pallet)
        ensures
            pallet@ == (State { next_round_no, next_proposal_no, ..State::init(config) }),
            pallet.wf(),
    {
        let pallet = Pallet {
            config,
            next_round_no,
            next_proposal_no,
            admin: HashMap::new(),
            round: HashMap::new(),
            vote: HashMap::new(),
            proposal: HashMap::new(),
            proposals: HashMap::new(),
            events: Vec::new(),
        };
        proof {
            assert(pallet@ =~= (State { next_round_no, next_proposal_no, ..State::init(config) }));
        }
        pallet
    }

    /// The capacities that the ledger was made for.
    pub fn config(&self) -> (config: Config)
        ensures
            config == self@.config,
    {
        self.config
    }

    /// The number that the next round gets.
    pub fn next_round_no(&self) -> (no: RoundNo)
        ensures
            no == self@.next_round_no,
    {
        self.next_round_no
    }

    /// The number that the next proposal gets.
    pub fn next_proposal_no(&self) -> (no: ProposalNo)
        ensures
            no == self@.next_proposal_no,
    {
        self.next_proposal_no
    }

    /// Issues the next round's number and moves the counter on.
    pub fn new_round_no(&mut self) -> (round_no: RoundNo)
        ensures
            round_no == old(self)@.next_round_no,
            final(self)@ == (State { next_round_no: next_no(round_no), ..old(self)@ }),
    {
        let round_no = self.next_round_no;
        let next_round_no: RoundNo = round_no.wrapping_add(1);
        self.next_round_no = next_round_no;
        proof {
            assert(self@ =~= (State { next_round_no: next_no(round_no), ..old(self)@ }));
        }
        round_no
    }

    /// Issues the next proposal's number and moves the counter on.
    pub fn new_proposal_no(&mut self) -> (proposal_no: ProposalNo)
        ensures
            proposal_no == old(self)@.next_proposal_no,
            final(self)@ == (State { next_proposal_no: next_no(proposal_no), ..old(self)@ }),
    {
        let proposal_no = self.next_proposal_no;
        let next_proposal_no: ProposalNo = proposal_no.wrapping_add(1);
        self.next_proposal_no = next_proposal_no;
        proof {
            assert(self@ =~= (State { next_proposal_no: next_no(proposal_no), ..old(self)@ }));
        }
        proposal_no
    }

    /// The key under which the contributions to a proposal in a round are kept.
    pub fn create_vote_key(round_no: RoundNo, proposal_no: ProposalNo) -> (key: u64)
        ensures
            key == vote_key(round_no, proposal_no),
    {
        (round_no as u64) * 0x1_0000_0000u64 + (proposal_no as u64)
    }

    /// Adds a notification to those that wait to be collected.
    fn deposit_event(&mut self, event: Event)
        ensures
            final(self)@ == (State { events: old(self)@.events.push(event), ..old(self)@ }),
    {
        self.events.push(event);
        proof {
            assert(self@ =~= (State { events: old(self)@.events.push(event), ..old(self)@ }));
        }
    }

    /// Hands out the notifications emitted since the last call, oldest
    /// first, and leaves none behind.
    pub fn take_events(&mut self) -> (events: Vec<Event>)
        ensures
            events@ == old(self)@.events,
            final(self)@ == (State { events: Seq::empty(), ..old(self)@ }),
    {
        let mut events: Vec<Event> = Vec::new();
        std::mem::swap(&mut self.events, &mut events);
        proof {
            assert(self@ =~= (State { events: Seq::empty(), ..old(self)@ }));
        }
        events
    }

    /// Whether the proposal's number stands in the round's index.
    pub fn is_proposal_registered(&self, proposal_no: ProposalNo, round_no: RoundNo) -> (found:
        bool)
        ensures
            found == self@.is_registered(proposal_no, round_no),
    {
        match self.proposals.get(&round_no) {
            Some(proposals_vec) => {
                let mut i: usize = 0;
                while i < proposals_vec.len()
                    invariant
                        i <= proposals_vec.len(),
                        self@.index_of(round_no) == proposals_vec@,
                        forall|j: int| 0 <= j < i ==> proposals_vec@[j] != proposal_no,
                    decreases proposals_vec.len() - i,
                {
                    if proposals_vec[i] == proposal_no {
                        proof {
                            assert(self@.index_of(round_no)[i as int] == proposal_no);
                        }
                        return true;
                    }
                    i = i + 1;
                }
                false
            },
            None => false,
        }
    }

    /// The contributions to the proposal in the round, oldest first.
    pub fn get_votes_for_proposal(&self, proposal_no: ProposalNo, round_no: RoundNo) -> (votes:
        Vec<Vote>)
        ensures
            votes@ == self@.votes_for(proposal_no, round_no),
    {
        let mut votes: Vec<Vote> = Vec::new();
        match self.vote.get(&Self::create_vote_key(round_no, proposal_no)) {
            Some(votes_vec) => {
                let mut i: usize = 0;
                while i < votes_vec.len()
                    invariant
                        i <= votes_vec.len(),
                        votes@ == votes_vec@.take(i as int),
                    decreases votes_vec.len() - i,
                {
                    let vote = &votes_vec[i];
                    votes.push(VoteDetails { account: vote.account, balance: vote.balance });
                    proof {
                        assert(votes@ =~= votes_vec@.take(i + 1));
                    }
                    i = i + 1;
                }
                proof {
                    assert(votes_vec@.take(i as int) =~= votes_vec@);
                }
            },
            None => {},
        }
        votes
    }

    /// The round that `who` has opened last and not closed, if any.
    pub fn admin_round(&self, who: AccountId) -> (round_no: Option<RoundNo>)
        ensures
            round_no == if self@.admin.contains_key(who) {
                Some(self@.admin[who])
            } else {
                None
            },
    {
        match self.admin.get(&who) {
            Some(round_no) => Some(*round_no),
            None => None,
        }
    }

    /// The round's flag, open or not, if the round is on record.
    pub fn round(&self, round_no: RoundNo) -> (flag: Option<bool>)
        ensures
            flag == if self@.round.contains_key(round_no) {
                Some(self@.round[round_no])
            } else {
                None
            },
    {
        match self.round.get(&round_no) {
            Some(is_active) => Some(*is_active),
            None => None,
        }
    }

    /// Whether the round is on record and open.
    pub fn is_round_active(&self, round_no: RoundNo) -> (active: bool)
        ensures
            active == self@.round_active(round_no),
    {
        match self.round.get(&round_no) {
            Some(is_active) => *is_active,
            None => false,
        }
    }

    /// The proposal's record, if there is one.
    pub fn proposal(&self, proposal_no: ProposalNo) -> (details: Option<&Proposal>)
        ensures
            match details {
                Some(d) => self@.proposal.contains_key(proposal_no) && *d
                    == self@.proposal[proposal_no],
                None => !self@.proposal.contains_key(proposal_no),
            },
    {
        self.proposal.get(&proposal_no)
    }

    /// Opens a round for `who` under the next round number, binds `who` to
    /// it in place of any round bound before, and emits `NewVotingRound`.
    /// Never fails.
    pub fn start_round(&mut self, who: AccountId) -> (result: Result<(), Error>)
        requires
            old(self).wf(),
        ensures
            result is Ok,
            final(self)@ == old(self)@.start_round(who),
            final(self).wf(),
    {
        let round_no = self.new_round_no();
        self.admin.insert(who, round_no);
        self.round.insert(round_no, true);
        proof {
            assert(self@ =~= (State {
                next_round_no: next_no(round_no),
                admin: old(self)@.admin.insert(who, round_no),
                round: old(self)@.round.insert(round_no, true),
                ..old(self)@
            }));
        }
        self.deposit_event(Event::NewVotingRound(round_no));
        proof {
            assert(self@ =~= old(self)@.start_round(who));
        }
        Ok(())
    }

    /// Registers a proposal of `who` in the round.
    ///
    /// Fails with `InvalidRoundNo` where the round is not on record and with
    /// `RoundInactive` where it is not open; nothing changes then. Otherwise
    /// the next proposal number is spent. Fails with `DuplicateProposal`
    /// where that number already stands in the round's index, and with
    /// `ProposalsOverflow` where the index is full; in the latter case the
    /// proposal's record is kept all the same. On success the number is the
    /// last of the index and `ProposalRegistered` is emitted.
    pub fn create_proposal(
        &mut self,
        who: AccountId,
        name: ProposalName,
        round_no: RoundNo,
    ) -> (result: Result<(), Error>)
        requires
            old(self).wf(),
        ensures
            result == old(self)@.create_proposal_result(round_no),
            final(self)@ == old(self)@.create_proposal(who, name, round_no),
            final(self).wf(),
    {
        match self.round.get(&round_no) {
            Some(is_active) => {
                if !*is_active {
                    return Err(Error::RoundInactive);
                }
            },
            None => {
                return Err(Error::InvalidRoundNo);
            },
        }
        let proposal_no = self.new_proposal_no();
        let proposal_details = ProposalDetails { owner: who, name, vote_value: 0 };
        if self.is_proposal_registered(proposal_no, round_no) {
            return Err(Error::DuplicateProposal);
        }
        self.proposal.insert(proposal_no, proposal_details);
        let len = match self.proposals.get(&round_no) {
            Some(proposals_vec) => proposals_vec.len(),
            None => 0,
        };
        if len >= self.config.max_proposals as usize {
            proof {
                assert(self@ =~= old(self)@.create_proposal(who, name, round_no));
            }
            return Err(Error::ProposalsOverflow);
        }
        let mut proposals_vec = match self.proposals.remove(&round_no) {
            Some(proposals_vec) => proposals_vec,
            None => Vec::new(),
        };
        proposals_vec.push(proposal_no);
        self.proposals.insert(round_no, proposals_vec);
        proof {
            assert(self@ =~= (State {
                next_proposal_no: next_no(proposal_no),
                proposal: old(self)@.proposal.insert(proposal_no, proposal_details),
                proposals: old(self)@.proposals.insert(
                    round_no,
                    old(self)@.index_of(round_no).push(proposal_no),
                ),
                ..old(self)@
            }));
        }
        self.deposit_event(Event::ProposalRegistered(proposal_no, round_no));
        proof {
            assert(self@ =~= old(self)@.create_proposal(who, name, round_no));
        }
        Ok(())
    }

    /// Records a contribution of `who` to the proposal in the round.
    ///
    /// Fails with `InvalidRoundNo` where the round is not on record or not
    /// open, with `ProposalNotRegistered` where the proposal's number is not
    /// in the round's index, and with `VotesOverflow` where the proposal's
    /// list of contributions is full; nothing changes then. On success the
    /// contribution is the last of the list, whoever made the ones before.
    pub fn vote(
        &mut self,
        who: AccountId,
        round_no: RoundNo,
        proposal_no: ProposalNo,
        balance: Balance,
    ) -> (result: Result<(), Error>)
        requires
            old(self).wf(),
        ensures
            result == old(self)@.vote_result(round_no, proposal_no),
            final(self)@ == old(self)@.vote(who, round_no, proposal_no, balance),
            final(self).wf(),
    {
        if !self.is_round_active(round_no) {
            return Err(Error::InvalidRoundNo);
        }
        if !self.is_proposal_registered(proposal_no, round_no) {
            return Err(Error::ProposalNotRegistered);
        }
        let details = VoteDetails { account: who, balance };
        let key = Self::create_vote_key(round_no, proposal_no);
        let len = match self.vote.get(&key) {
            Some(votes_vec) => votes_vec.len(),
            None => 0,
        };
        if len >= self.config.max_votes as usize {
            return Err(Error::VotesOverflow);
        }
        let mut votes_vec = match self.vote.remove(&key) {
            Some(votes_vec) => votes_vec,
            None => Vec::new(),
        };
        votes_vec.push(details);
        self.vote.insert(key, votes_vec);
        proof {
            assert forall|k: (RoundNo, ProposalNo)|
                vote_key(k.0, k.1) == key <==> k == (round_no, proposal_no) by {
                lemma_vote_key_injective(k.0, k.1, round_no, proposal_no);
            }
            assert(self@ =~= old(self)@.vote(who, round_no, proposal_no, balance));
        }
        Ok(())
    }

    /// The proposal's score, worked out from its contributions in the round
    /// and recorded where none was recorded; 0 for a proposal that is not on
    /// record. A recorded score other than 0 is returned as it stands.
    ///
    /// A score that has to be worked out must fit in 128 bits.
    pub fn calculate_vote_value(&mut self, proposal_no: ProposalNo, round_no: RoundNo) -> (value:
        u128)
        requires
            old(self).wf(),
            old(self)@.score_fits(proposal_no, round_no),
        ensures
            value == old(self)@.vote_value(proposal_no, round_no),
            final(self)@ == old(self)@.calculate_vote_value(proposal_no, round_no),
            final(self).wf(),
    {
        let cached = match self.proposal.get(&proposal_no) {
            Some(details) => details.vote_value,
            None => {
                return 0;
            },
        };
        if cached != 0 {
            return cached;
        }
        let votes = self.get_votes_for_proposal(proposal_no, round_no);
        let root_sum = sum_of_roots(&votes);
        proof {
            crate::tally::lemma_score_fits(votes@);
            assert(root_sum * root_sum <= u128::MAX);
        }
        let vote_value = root_sum * root_sum;
        match self.proposal.remove(&proposal_no) {
            Some(details) => {
                let mut details = details;
                details.vote_value = vote_value;
                self.proposal.insert(proposal_no, details);
            },
            None => {},
        }
        proof {
            assert(self@ =~= old(self)@.calculate_vote_value(proposal_no, round_no));
        }
        vote_value
    }

    /// Whether every score that a tally of the round would work out fits in
    /// 128 bits.
    pub fn tally_fits(&self, round_no: RoundNo) -> (fits: bool)
        ensures
            fits == self@.tally_fits(round_no),
    {
        match self.proposals.get(&round_no) {
            Some(proposals_vec) => {
                let mut i: usize = 0;
                while i < proposals_vec.len()
                    invariant
                        i <= proposals_vec.len(),
                        self@.index_of(round_no) == proposals_vec@,
                        forall|j: int|
                            0 <= j < i ==> self@.score_fits(#[trigger] proposals_vec@[j], round_no),
                    decreases proposals_vec.len() - i,
                {
                    let proposal_no = proposals_vec[i];
                    let unscored = match self.proposal.get(&proposal_no) {
                        Some(details) => details.vote_value == 0,
                        None => false,
                    };
                    if unscored {
                        let votes = self.get_votes_for_proposal(proposal_no, round_no);
                        let root_sum = sum_of_roots(&votes);
                        proof {
                            crate::tally::lemma_score_fits(votes@);
                        }
                        if root_sum > 0xffff_ffff_ffff_ffffu128 {
                            proof {
                                assert(!self@.score_fits(
                                    self@.index_of(round_no)[i as int],
                                    round_no,
                                ));
                            }
                            return false;
                        }
                    }
                    i = i + 1;
                }
                true
            },
            None => true,
        }
    }

    /// Tallies the round: asks for the score of each proposal in its index,
    /// in the order of registration, so that each is recorded. Where the
    /// round has no index, emits `LogErrNoProposalsForRound` instead.
    ///
    /// The scores that have to be worked out must fit in 128 bits, which
    /// [`Pallet::tally_fits`] tells.
    pub fn tally_votes(&mut self, round_no: RoundNo)
        requires
            old(self).wf(),
            old(self)@.tally_fits(round_no),
        ensures
            final(self)@ == old(self)@.tally_votes(round_no),
            final(self).wf(),
    {
        let proposals: Vec<ProposalNo> = match self.proposals.get(&round_no) {
            Some(proposals_vec) => proposals_vec.clone(),
            None => {
                self.deposit_event(Event::LogErrNoProposalsForRound);
                return ;
            },
        };
        proof {
            assert(proposals@ =~= old(self)@.proposals[round_no]);
            assert(self@ =~= old(self)@.tally_over(proposals@.take(0), round_no));
        }
        let mut i: usize = 0;
        while i < proposals.len()
            invariant
                i <= proposals.len(),
                old(self)@.index_of(round_no) == proposals@,
                old(self)@.tally_fits(round_no),
                self@ == old(self)@.tally_over(proposals@.take(i as int), round_no),
                self.wf(),
            decreases proposals.len() - i,
        {
            proof {
                assert(old(self)@.score_fits(old(self)@.index_of(round_no)[i as int], round_no));
                old(self)@.lemma_tally_step(proposals@, i as int, round_no);
            }
            self.calculate_vote_value(proposals[i], round_no);
            i = i + 1;
        }
        proof {
            assert(proposals@.take(i as int) =~= proposals@);
        }
    }

    /// Closes the round that `who` has opened.
    ///
    /// Fails with `NotAdmin` where `who` is bound to no round and with
    /// `InvalidRoundNo` where the round bound is number 0; nothing changes
    /// then. On success the binding and the round's record are removed and
    /// the round is tallied; the tally cannot make the call fail.
    ///
    /// Where the call succeeds, the scores that the tally works out must fit
    /// in 128 bits, which [`Pallet::tally_fits`] tells of the caller's round.
    pub fn end_round(&mut self, who: AccountId) -> (result: Result<(), Error>)
        requires
            old(self).wf(),
            old(self)@.end_round_result(who) is Ok ==> old(self)@.tally_fits(
                old(self)@.admin[who],
            ),
        ensures
            result == old(self)@.end_round_result(who),
            final(self)@ == old(self)@.end_round(who),
            final(self).wf(),
    {
        let round_no = match self.admin.get(&who) {
            Some(round_no) => *round_no,
            None => {
                return Err(Error::NotAdmin);
            },
        };
        if round_no == 0 {
            return Err(Error::InvalidRoundNo);
        }
        self.admin.remove(&who);
        self.round.remove(&round_no);
        proof {
            assert(self@ =~= (State {
                admin: old(self)@.admin.remove(who),
                round: old(self)@.round.remove(round_no),
                ..old(self)@
            }));
            assert forall|i: int| 0 <= i < self@.index_of(round_no).len() implies self@.score_fits(
                #[trigger] self@.index_of(round_no)[i],
                round_no,
            ) by {
                assert(old(self)@.score_fits(old(self)@.index_of(round_no)[i], round_no));
            }
        }
        self.tally_votes(round_no);
        Ok(())
    }
}

} // verus!
