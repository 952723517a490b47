//! A round-based quadratic-funding ledger.
//!
//! Administrators open rounds, participants register proposals and contribute
//! to them while a round is open, and closing a round scores every proposal of
//! that round with the square of the sum of the integer square roots of its
//! contributions.
//!
//! [`state::State`] is the mathematical model of the ledger and of each
//! operation on it; [`pallet::Pallet`] is the executable ledger, every
//! operation of which is proved to act on its view as the model says.

pub mod laws;
pub mod pallet;
pub mod sqrt;
pub mod state;
pub mod tally;
pub mod types;

pub use pallet::Pallet;
pub use state::State;
pub use types::{
    balance_as_128, AccountId, Balance, Config, DefaultNo, Error, Event, ProposalDetails,
    ProposalName, ProposalNo, RoundNo, VoteDetails,
};
