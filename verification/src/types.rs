//! The plain data of the ledger: numbers, records, notifications and errors.

use frame_support::traits::ConstU32;
use frame_support::BoundedVec;
use vstd::prelude::*;

verus! {

/// `BoundedVec` of the crate `frame-support`: a vector whose length never
/// exceeds the bound that its second parameter names. Opaque here.
#[verifier::external_type_specification]
#[verifier::external_body]
#[verifier::reject_recursive_types(T)]
#[verifier::reject_recursive_types(S)]
pub struct ExBoundedVec<T, S>(BoundedVec<T, S>);

/// `ConstU32` of the crate `frame-support`: a bound given as a constant. Opaque here.
#[verifier::external_type_specification]
#[verifier::external_body]
pub struct ExConstU32<const N: u32>(ConstU32<N>);

/// The number of a proposal.
pub type ProposalNo = u32;

/// The number of a round.
pub type RoundNo = u32;

/// The identity of a caller, as the host has authenticated it.
pub type AccountId = u64;

/// An amount of the host's currency.
pub type Balance = u128;

/// The name of a proposal: at most 32 bytes.
pub type ProposalName = BoundedVec<u8, ConstU32<32>>;

/// A proposal: its name, its owner and its score. A score of 0 means that
/// none has been recorded yet.
#[derive(Debug, PartialEq, Eq)]
pub struct ProposalDetails<A> {
    pub name: ProposalName,
    pub owner: A,
    pub vote_value: u128,
}

/// One contribution: who made it, and how much.
#[derive(Clone, Copy, Debug, PartialEq, Eq)]
pub struct VoteDetails<A, B> {
    pub account: A,
    pub balance: B,
}

/// The capacities that the host sets.
#[derive(Clone, Copy, Debug, PartialEq, Eq, Structural)]
pub struct Config {
    /// How many proposals a round can hold.
    pub max_proposals: u32,
    /// How many contributions a proposal can hold in a round.
    pub max_votes: u32,
}

/// What the ledger tells its subscribers.
#[derive(Clone, Copy, Debug, PartialEq, Eq, Structural)]
pub enum Event {
    /// A round was opened, under this number.
    NewVotingRound(RoundNo),
    /// Never emitted.
    NewProposalCreated(ProposalNo),
    /// A proposal was registered: its number, then the number of its round.
    ProposalRegistered(ProposalNo, RoundNo),
    /// A round was closed for which no proposal had been registered.
    LogErrNoProposalsForRound,
    /// Never emitted.
    LogConversionFailed,
}

/// Why an operation was refused.
#[derive(Clone, Copy, Debug, PartialEq, Eq, Structural)]
pub enum Error {
    /// Never returned.
    NoneValue,
    /// Never returned.
    StorageOverflow,
    /// The round does not exist, or is not open, or is the number 0.
    InvalidRoundNo,
    /// Never returned.
    InvalidProposalNo,
    /// The proposal's number is already in the round's index.
    DuplicateProposal,
    /// The proposal is not in the round's index.
    ProposalNotRegistered,
    /// The round's index is full.
    ProposalsOverflow,
    /// The proposal's list of contributions is full.
    VotesOverflow,
    /// The caller has no round to close.
    NotAdmin,
    /// The round exists but is not open.
    RoundInactive,
}

/// The number that the first round and the first proposal get.
#[allow(non_snake_case)]
pub fn DefaultNo() -> (no: u32)
    ensures
        no == 1,
{
    1
}

/// The amount that a contribution counts for, given what converting the
/// host's balance to 128 bits gave: the converted amount, or 0 where the
/// balance did not fit.
pub fn balance_as_128(converted: Option<u128>) -> (amount: u128)
    ensures
        amount == match converted {
            Some(b128) => b128,
            None => 0,
        },
{
    match converted {
        Some(b128) => b128,
        None => 0,
    }
}

} // verus!
