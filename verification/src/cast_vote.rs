//! Casting votes: the transition that spends credits.

use vstd::prelude::*;
use crate::cost::{lemma_total_cost_dominates, marginal_cost};
use crate::error::{Error, ErrorCode, VoteError};
use crate::identity::Identity;
use crate::poll::{Poll, PollView};
use crate::voter::{lemma_spent_update, Voter, VoterView};

verus! {

/// The entries that casting votes touches, and the caller.
#[derive(Clone, Debug, PartialEq, Eq)]
pub struct CastVote {
    /// The entry that the votes are paid from.
    pub voter_account: Voter,
    /// The poll that receives the votes.
    pub poll: Poll,
    /// The caller.
    pub voter: Identity,
}

/// What a successful cast reports back.
#[derive(Clone, Copy, Debug, PartialEq, Eq, Structural)]
pub struct VoteReceipt {
    /// Credits that the votes have cost.
    pub cost: u64,
    /// Credits that the voter has left.
    pub credits_remaining: u64,
}

/// What casting `votes` votes on option `option_index` comes to when `caller`
/// asks for it: the cost, or the first of the checks that fails, in the order
/// in which they are made.
pub open spec fn vote_verdict(
    poll: PollView,
    account: VoterView,
    caller: Identity,
    option_index: u8,
    votes: u64,
) -> Result<u64, Error> {
    let current: u64 = account.votes_cast[option_index as int];
    if !poll.is_active {
        Err(Error::Vote(VoteError::PollNotActive))
    } else if option_index >= poll.option_count {
        Err(Error::Vote(VoteError::InvalidOption))
    } else if votes == 0 {
        Err(Error::Vote(VoteError::InvalidVoteCount))
    } else if account.voter != caller {
        Err(Error::Vote(VoteError::UnauthorizedVoter))
    } else if !Voter::cost_representable(current, votes) {
        Err(Error::Cost(ErrorCode::Overflow))
    } else if account.credits_remaining < marginal_cost(current as nat, votes as nat) {
        Err(Error::Vote(VoteError::InsufficientCredits))
    } else if poll.votes[option_index as int] + votes > u64::MAX {
        Err(Error::Vote(VoteError::Overflow))
    } else {
        Ok(marginal_cost(current as nat, votes as nat) as u64)
    }
}

/// The boundaries of a cast on an open poll: the option count itself, and
/// anything above it, is no option index, and on an option that exists a cast
/// of no votes is refused. On a closed poll either is refused as every cast is.
pub proof fn lemma_vote_verdict_boundaries(
    poll: PollView,
    account: VoterView,
    caller: Identity,
    option_index: u8,
    votes: u64,
)
    ensures
        option_index >= poll.option_count || votes == 0 ==> vote_verdict(
            poll,
            account,
            caller,
            option_index,
            votes,
        ) is Err,
        poll.is_active && option_index >= poll.option_count ==> vote_verdict(
            poll,
            account,
            caller,
            option_index,
            votes,
        ) == Err::<u64, Error>(Error::Vote(VoteError::InvalidOption)),
        poll.is_active && option_index < poll.option_count ==> vote_verdict(
            poll,
            account,
            caller,
            option_index,
            0,
        ) == Err::<u64, Error>(Error::Vote(VoteError::InvalidVoteCount)),
        !poll.is_active ==> vote_verdict(poll, account, caller, option_index, votes) == Err::<
            u64,
            Error,
        >(Error::Vote(VoteError::PollNotActive)),
{
}

impl CastVote {
    /// The poll and the voter entry each hold one counter per option.
    pub open spec fn aligned(&self) -> bool {
        &&& self.poll.votes@.len() == self.poll.option_count
        &&& self.voter_account.votes_cast@.len() == self.poll.option_count
    }

    /// What casting `votes` votes on option `option_index` comes to; see
    /// [`vote_verdict`].
    pub open spec fn verdict(&self, option_index: u8, votes: u64) -> Result<u64, Error> {
        vote_verdict(self.poll@, self.voter_account@, self.voter, option_index, votes)
    }

    /// Casts `votes` more votes on option `option_index`, paid from the
    /// voter's credits at the marginal cost `(current + votes)² - current²`.
    ///
    /// On success the credits fall by the cost, and the voter's tally and the
    /// poll's total for the option both rise by `votes`. On any failure
    /// nothing changes. The accounting identity of the voter entry and the
    /// invariant of the poll are kept either way.
    pub fn cast_vote(&mut self, option_index: u8, votes: u64) -> (r: Result<VoteReceipt, Error>)
        requires
            old(self).aligned(),
        ensures
            final(self).aligned(),
            final(self).voter == old(self).voter,
            match r {
                Ok(receipt) => {
                    &&& old(self).verdict(option_index, votes) == Ok::<u64, Error>(receipt.cost)
                    &&& receipt.credits_remaining == old(self).voter_account.credits_remaining
                        - receipt.cost
                    &&& old(self).voter_account@.can_afford(option_index as int, votes)
                    &&& final(self).voter_account@ == old(self).voter_account@.after_vote(
                        option_index as int,
                        votes,
                    )
                    &&& final(self).poll@ == old(self).poll@.after_vote(option_index as int, votes)
                },
                Err(e) => {
                    &&& old(self).verdict(option_index, votes) == Err::<u64, Error>(e)
                    &&& *final(self) == *old(self)
                },
            },
            votes == 0 || option_index >= old(self).poll.option_count ==> r is Err,
            old(self).voter_account.balanced() ==> final(self).voter_account.balanced(),
            old(self).poll.wf() ==> final(self).poll.wf(),
            final(self).voter_account.credits_remaining
                <= old(self).voter_account.credits_remaining,
            forall|i: int|
                0 <= i < old(self).poll.option_count ==> {
                    &&& old(self).poll.votes@[i] <= #[trigger] final(self).poll.votes@[i]
                    &&& old(self).voter_account.votes_cast@[i]
                        <= final(self).voter_account.votes_cast@[i]
                    &&& final(self).poll.votes@[i] - old(self).poll.votes@[i]
                        == final(self).voter_account.votes_cast@[i]
                        - old(self).voter_account.votes_cast@[i]
                },
    {
        if !self.poll.is_active {
            return Err(Error::Vote(VoteError::PollNotActive));
        }
        if option_index >= self.poll.option_count {
            return Err(Error::Vote(VoteError::InvalidOption));
        }
        if votes == 0 {
            return Err(Error::Vote(VoteError::InvalidVoteCount));
        }
        proof {
            self.voter_account.voter.lemma_view_injective(self.voter);
        }
        if self.voter_account.voter != self.voter {
            return Err(Error::Vote(VoteError::UnauthorizedVoter));
        }
        let index: usize = option_index as usize;
        let current_votes: u64 = self.voter_account.votes_cast[index];
        let cost: u64 = match Voter::calculate_vote_cost(current_votes, votes) {
            Ok(cost) => cost,
            Err(e) => { return Err(e); },
        };
        if self.voter_account.credits_remaining < cost {
            return Err(Error::Vote(VoteError::InsufficientCredits));
        }
        let credits_remaining: u64 = match self.voter_account.credits_remaining.checked_sub(cost) {
            Some(left) => left,
            None => { return Err(Error::Vote(VoteError::Overflow)); },
        };
        proof {
            lemma_total_cost_dominates((current_votes + votes) as nat);
        }
        let voter_votes: u64 = match current_votes.checked_add(votes) {
            Some(sum) => sum,
            None => { return Err(Error::Vote(VoteError::Overflow)); },
        };
        let poll_votes: u64 = match self.poll.votes[index].checked_add(votes) {
            Some(sum) => sum,
            None => { return Err(Error::Vote(VoteError::Overflow)); },
        };
        proof {
            lemma_spent_update(self.voter_account.votes_cast@, index as int, voter_votes);
        }
        self.voter_account.credits_remaining = credits_remaining;
        self.voter_account.votes_cast[index] = voter_votes;
        self.poll.votes[index] = poll_votes;
        Ok(VoteReceipt { cost, credits_remaining })
    }
}

} // verus!
