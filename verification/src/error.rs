//! The failures of the four operations and of the cost engine.

use vstd::prelude::*;

verus! {

/// Why a poll could not be created.
#[derive(Clone, Copy, Debug, PartialEq, Eq, Structural)]
pub enum QuadraticVotingError {
    /// The title is longer than [`crate::Poll::MAX_TITLE_LEN`] bytes.
    TitleTooLong,
    /// The description is longer than [`crate::Poll::MAX_DESC_LEN`] bytes.
    DescriptionTooLong,
    /// The option count is zero or above [`crate::Poll::MAX_OPTIONS`].
    InvalidOptionCount,
}

/// Why a voter could not be registered.
#[derive(Clone, Copy, Debug, PartialEq, Eq, Structural)]
pub enum RegisterError {
    /// The poll has been closed.
    PollNotActive,
    /// The credit budget is zero.
    InvalidCredits,
}

/// Why votes could not be cast.
#[derive(Clone, Copy, Debug, PartialEq, Eq, Structural)]
pub enum VoteError {
    /// The poll has been closed.
    PollNotActive,
    /// The option index is not below the poll's option count.
    InvalidOption,
    /// The number of votes is zero.
    InvalidVoteCount,
    /// The caller is not the voter that the entry belongs to.
    UnauthorizedVoter,
    /// The cost exceeds the credits that remain.
    InsufficientCredits,
    /// A counter would leave the range of `u64`.
    Overflow,
}

/// Why a poll could not be closed.
#[derive(Clone, Copy, Debug, PartialEq, Eq, Structural)]
pub enum CloseError {
    /// The poll has been closed before.
    PollAlreadyClosed,
}

/// Why the cost engine gave no cost.
#[derive(Clone, Copy, Debug, PartialEq, Eq, Structural)]
pub enum ErrorCode {
    /// A sum or a square would leave the range of `u64`.
    Overflow,
}

/// Why access to an entry was refused.
#[derive(Clone, Copy, Debug, PartialEq, Eq, Structural)]
pub enum AccessError {
    /// The caller is not the authority of the poll.
    AuthorityMismatch,
    /// A poll is stored under the key already, or the authority has a poll
    /// of that title already.
    PollExists,
    /// The voter is registered for the poll already.
    VoterExists,
    /// No poll is stored under the key.
    UnknownPoll,
    /// The voter is not registered for the poll.
    UnknownVoter,
}

/// Any failure of the library, by the operation that raised it.
#[derive(Clone, Copy, Debug, PartialEq, Eq, Structural)]
pub enum Error {
    /// Raised while creating a poll.
    Poll(QuadraticVotingError),
    /// Raised while registering a voter.
    Register(RegisterError),
    /// Raised while casting votes.
    Vote(VoteError),
    /// Raised while closing a poll.
    Close(CloseError),
    /// Raised by the cost engine.
    Cost(ErrorCode),
    /// Raised where a caller reaches for an entry that is not theirs.
    Access(AccessError),
}

} // verus!
