//! Quadratic voting over a fixed-option poll.
//!
//! Participants receive a finite credit budget and spend it on votes at
//! quadratic cost: holding `n` votes on one option costs `n * n` credits.
//! The crate holds the two ledger entries ([`Poll`] and [`Voter`]), the cost
//! engine, and the four state transitions that create a poll, register a
//! voter, cast votes and close a poll. Every transition is all-or-nothing.
//!
//! Each transition comes twice. As a method on the entries it touches
//! ([`CreatePoll`], [`RegisterVoter`], [`CastVote`], [`ClosePoll`]) it serves a
//! host that stores the entries itself. As a function on a [`Ledger`]
//! ([`create_poll`], [`register_voter`], [`cast_vote`], [`close_poll`]) it also
//! finds the entries by their keys and refuses a key that is taken.

pub mod assoc;
pub mod cast_vote;
pub mod close_poll;
pub mod cost;
pub mod create_poll;
pub mod error;
pub mod identity;
pub mod ledger;
pub mod ledger_model;
pub mod poll;
pub mod register_voter;
pub mod voter;

pub use cast_vote::{CastVote, VoteReceipt};
pub use close_poll::ClosePoll;
pub use create_poll::{CreatePoll, CreatePollBumps};
pub use error::{
    AccessError, CloseError, Error, ErrorCode, QuadraticVotingError, RegisterError, VoteError,
};
pub use identity::Identity;
pub use ledger::{cast_vote, close_poll, create_poll, register_voter, Ledger};
pub use ledger_model::{LedgerView, Request};
pub use poll::{Poll, PollView};
pub use register_voter::{RegisterVoter, RegisterVoterBumps};
pub use voter::{Voter, VoterView};
