//! Closing a poll.

use vstd::prelude::*;
use crate::error::{AccessError, CloseError, Error};
use crate::identity::Identity;
use crate::poll::{Poll, PollView};

verus! {

/// The poll to close, and the caller.
#[derive(Clone, Debug, PartialEq, Eq)]
pub struct ClosePoll {
    /// The poll to close.
    pub poll: Poll,
    /// The caller, who must be the authority of the poll.
    pub authority: Identity,
}

/// Whether `caller` may close the poll, or else the first of the checks that
/// fails, in the order in which they are made.
pub open spec fn close_verdict(poll: PollView, caller: Identity) -> Result<(), Error> {
    if poll.authority != caller {
        Err(Error::Access(AccessError::AuthorityMismatch))
    } else if !poll.is_active {
        Err(Error::Close(CloseError::PollAlreadyClosed))
    } else {
        Ok(())
    }
}

impl ClosePoll {
    /// Whether the caller may close the poll; see [`close_verdict`].
    pub open spec fn verdict(&self) -> Result<(), Error> {
        close_verdict(self.poll@, self.authority)
    }

    /// Closes the poll for good and returns its final totals, one per option.
    /// Only the active flag changes. Where a check fails, nothing changes.
    pub fn close_poll(&mut self) -> (r: Result<Vec<u64>, Error>)
        ensures
            final(self).authority == old(self).authority,
            match r {
                Ok(tally) => {
                    &&& old(self).verdict() == Ok::<(), Error>(())
                    &&& tally@ == old(self).poll.votes@
                    &&& final(self).poll@ == old(self).poll@.closed()
                },
                Err(e) => {
                    &&& old(self).verdict() == Err::<(), Error>(e)
                    &&& *final(self) == *old(self)
                },
            },
            r is Ok ==> old(self).poll.is_active && !final(self).poll.is_active,
            old(self).poll.wf() ==> final(self).poll.wf(),
    {
        proof {
            self.poll.authority.lemma_view_injective(self.authority);
        }
        if self.poll.authority != self.authority {
            return Err(Error::Access(AccessError::AuthorityMismatch));
        }
        if !self.poll.is_active {
            return Err(Error::Close(CloseError::PollAlreadyClosed));
        }
        self.poll.is_active = false;
        let tally = self.poll.votes.clone();
        assert(tally@ =~= self.poll.votes@);
        Ok(tally)
    }
}

} // verus!
