//! Creating a poll.

use vstd::prelude::*;
use crate::error::{Error, QuadraticVotingError};
use crate::identity::Identity;
use crate::poll::{byte_len, text_len, Poll, PollView};

verus! {

/// The entry that creating a poll fills, and the caller.
#[derive(Clone, Debug, PartialEq, Eq)]
pub struct CreatePoll {
    /// The entry to fill. What it held before is overwritten.
    pub poll: Poll,
    /// The caller, who becomes the authority of the poll.
    pub authority: Identity,
}

/// The address bumps that belong to [`CreatePoll`].
#[derive(Clone, Copy, Debug, PartialEq, Eq, Structural)]
pub struct CreatePollBumps {
    /// Bump of the poll entry.
    pub poll: u8,
}

/// Whether a poll may be created with these values, or else the first of the
/// checks that fails, in the order in which they are made.
pub open spec fn create_verdict(
    title: Seq<char>,
    description: Seq<char>,
    option_count: u8,
) -> Result<(), Error> {
    if text_len(title) > Poll::MAX_TITLE_LEN {
        Err(Error::Poll(QuadraticVotingError::TitleTooLong))
    } else if text_len(description) > Poll::MAX_DESC_LEN {
        Err(Error::Poll(QuadraticVotingError::DescriptionTooLong))
    } else if option_count == 0 || option_count > Poll::MAX_OPTIONS {
        Err(Error::Poll(QuadraticVotingError::InvalidOptionCount))
    } else {
        Ok(())
    }
}

impl CreatePoll {
    /// Fills the entry with a new poll owned by the caller: open, and with a
    /// zero total for each of its `option_count` options. Where a check fails,
    /// the entry is left as it was.
    pub fn create_poll(
        &mut self,
        title: String,
        description: String,
        option_count: u8,
        bumps: &CreatePollBumps,
    ) -> (r: Result<(), Error>)
        ensures
            r == create_verdict(title@, description@, option_count),
            final(self).authority == old(self).authority,
            r is Ok ==> final(self).poll@ == PollView::created(
                old(self).authority,
                title@,
                description@,
                option_count,
                bumps.poll,
            ),
            r is Ok ==> final(self).poll.wf(),
            r is Err ==> *final(self) == *old(self),
    {
        if byte_len(&title) > Poll::MAX_TITLE_LEN {
            return Err(Error::Poll(QuadraticVotingError::TitleTooLong));
        }
        if byte_len(&description) > Poll::MAX_DESC_LEN {
            return Err(Error::Poll(QuadraticVotingError::DescriptionTooLong));
        }
        if option_count == 0 || option_count as usize > Poll::MAX_OPTIONS {
            return Err(Error::Poll(QuadraticVotingError::InvalidOptionCount));
        }
        let votes: Vec<u64> = vec![0; option_count as usize];
        assert(votes@ =~= Seq::new(option_count as nat, |i: int| 0u64));
        self.poll = Poll {
            authority: self.authority,
            title,
            description,
            option_count,
            votes,
            is_active: true,
            bump: bumps.poll,
        };
        Ok(())
    }
}

} // verus!
