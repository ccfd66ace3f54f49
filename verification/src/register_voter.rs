//! Registering a voter for a poll.

use vstd::prelude::*;
use crate::error::{Error, RegisterError};
use crate::identity::Identity;
use crate::poll::{Poll, PollView};
use crate::voter::{lemma_spent_of_zeros, Voter, VoterView};

verus! {

/// The entries that registering a voter touches, and the caller.
#[derive(Clone, Debug, PartialEq, Eq)]
pub struct RegisterVoter {
    /// The entry to fill. What it held before is overwritten.
    pub voter_account: Voter,
    /// The poll that the voter registers for.
    pub poll: Poll,
    /// The identity under which the poll is stored.
    pub poll_key: Identity,
    /// The caller, who becomes the voter of the entry.
    pub voter: Identity,
}

/// The address bumps that belong to [`RegisterVoter`].
#[derive(Clone, Copy, Debug, PartialEq, Eq, Structural)]
pub struct RegisterVoterBumps {
    /// Bump of the voter entry.
    pub voter_account: u8,
}

/// Whether a voter may register for the poll with `credits` credits, or else
/// the first of the checks that fails, in the order in which they are made.
pub open spec fn register_verdict(poll: PollView, credits: u64) -> Result<(), Error> {
    if !poll.is_active {
        Err(Error::Register(RegisterError::PollNotActive))
    } else if credits == 0 {
        Err(Error::Register(RegisterError::InvalidCredits))
    } else {
        Ok(())
    }
}

impl RegisterVoter {
    /// Whether a voter may register with `credits` credits; see
    /// [`register_verdict`].
    pub open spec fn verdict(&self, credits: u64) -> Result<(), Error> {
        register_verdict(self.poll@, credits)
    }

    /// Fills the entry for the caller: a budget of `credits`, all of it
    /// unspent, and a zero tally for each option of the poll. Where a check
    /// fails, the entry is left as it was. The poll is never changed.
    pub fn register_voter(&mut self, credits: u64, bumps: &RegisterVoterBumps) -> (r: Result<
        (),
        Error,
    >)
        ensures
            r == old(self).verdict(credits),
            final(self).poll == old(self).poll,
            final(self).poll_key == old(self).poll_key,
            final(self).voter == old(self).voter,
            r is Ok ==> final(self).voter_account@ == VoterView::registered(
                old(self).poll_key,
                old(self).voter,
                credits,
                old(self).poll.option_count,
                bumps.voter_account,
            ),
            r is Ok ==> final(self).voter_account.balanced(),
            r is Err ==> *final(self) == *old(self),
    {
        if !self.poll.is_active {
            return Err(Error::Register(RegisterError::PollNotActive));
        }
        if credits == 0 {
            return Err(Error::Register(RegisterError::InvalidCredits));
        }
        let votes_cast: Vec<u64> = vec![0; self.poll.option_count as usize];
        assert(votes_cast@ =~= Seq::new(self.poll.option_count as nat, |i: int| 0u64));
        proof {
            lemma_spent_of_zeros(votes_cast@);
        }
        self.voter_account = Voter {
            poll: self.poll_key,
            voter: self.voter,
            credits_remaining: credits,
            total_credits: credits,
            votes_cast,
            bump: bumps.voter_account,
        };
        Ok(())
    }
}

} // verus!
