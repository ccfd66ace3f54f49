//! The voter entry: one participant's credit budget and tally for one poll.

use vstd::prelude::*;
use crate::cost::{
    lemma_marginal_cost_formula, lemma_marginal_cost_strictly_increasing,
    lemma_total_cost_dominates, marginal_cost, total_cost,
};
use crate::error::{Error, ErrorCode};
use crate::identity::Identity;

verus! {

/// One participant's entry for one poll.
#[derive(Clone, Debug, PartialEq, Eq)]
pub struct Voter {
    /// The poll that the entry belongs to.
    pub poll: Identity,
    /// The participant, the only one who may spend from the entry.
    pub voter: Identity,
    /// Credits not yet spent.
    pub credits_remaining: u64,
    /// Credits granted at registration.
    pub total_credits: u64,
    /// Votes cast so far, one counter per option of the poll.
    pub votes_cast: Vec<u64>,
    /// Address bump of the stored entry.
    pub bump: u8,
}

/// What a voter entry holds, as mathematical values: the fields of
/// [`Voter`], with the tally as a sequence.
pub struct VoterView {
    pub poll: Identity,
    pub voter: Identity,
    pub credits_remaining: u64,
    pub total_credits: u64,
    pub votes_cast: Seq<u64>,
    pub bump: u8,
}

/// Credits that a tally has cost in total: the sum of the squares of its counters.
pub open spec fn spent(tally: Seq<u64>) -> nat
    decreases tally.len(),
{
    if tally.len() == 0 {
        0
    } else {
        spent(tally.drop_last()) + total_cost(tally.last() as nat)
    }
}

impl VoterView {
    /// The entry that registration yields: the whole budget unspent and an
    /// empty tally over `option_count` options.
    pub open spec fn registered(
        poll: Identity,
        voter: Identity,
        credits: u64,
        option_count: u8,
        bump: u8,
    ) -> VoterView {
        VoterView {
            poll,
            voter,
            credits_remaining: credits,
            total_credits: credits,
            votes_cast: Seq::new(option_count as nat, |i: int| 0u64),
            bump,
        }
    }

    /// Whether `votes` more votes on option `option_index` can be paid for:
    /// the option exists, the cost is representable and within the credits
    /// that remain.
    pub open spec fn can_afford(self, option_index: int, votes: u64) -> bool {
        &&& 0 <= option_index < self.votes_cast.len()
        &&& Voter::cost_representable(self.votes_cast[option_index], votes)
        &&& marginal_cost(self.votes_cast[option_index] as nat, votes as nat)
            <= self.credits_remaining
    }

    /// The entry after `votes` more votes on option `option_index` have been
    /// paid for at their marginal cost.
    pub open spec fn after_vote(self, option_index: int, votes: u64) -> VoterView {
        let current: u64 = self.votes_cast[option_index];
        VoterView {
            credits_remaining: (self.credits_remaining - marginal_cost(
                current as nat,
                votes as nat,
            )) as u64,
            votes_cast: self.votes_cast.update(option_index, (current + votes) as u64),
            ..self
        }
    }

    /// The accounting identity: what the tally has cost and what remains add
    /// up to the budget.
    pub open spec fn balanced(self) -> bool {
        spent(self.votes_cast) + self.credits_remaining == self.total_credits
    }

    /// The entry after a run of casts, each given as an option index and a
    /// number of votes. A cast that cannot be paid for leaves the entry as it is.
    pub open spec fn after_ballots(self, ballots: Seq<(int, u64)>) -> VoterView
        decreases ballots.len(),
    {
        if ballots.len() == 0 {
            self
        } else {
            let before = self.after_ballots(ballots.drop_last());
            let (option_index, votes) = ballots.last();
            if before.can_afford(option_index, votes) {
                before.after_vote(option_index, votes)
            } else {
                before
            }
        }
    }

    /// A fresh registration is balanced: nothing spent, the whole budget left.
    pub proof fn lemma_registered_is_balanced(
        poll: Identity,
        voter: Identity,
        credits: u64,
        option_count: u8,
        bump: u8,
    )
        ensures
            Self::registered(poll, voter, credits, option_count, bump).balanced(),
            spent(Self::registered(poll, voter, credits, option_count, bump).votes_cast) == 0,
    {
        lemma_spent_of_zeros(Self::registered(poll, voter, credits, option_count, bump).votes_cast);
    }

    /// A cast that can be paid for moves its cost from the remaining credits
    /// to the tally: the budget and the identities stay, no counter falls, and
    /// a balanced entry stays balanced.
    pub proof fn lemma_after_vote(self, option_index: int, votes: u64)
        requires
            self.can_afford(option_index, votes),
        ensures
            self.after_vote(option_index, votes).credits_remaining + marginal_cost(
                self.votes_cast[option_index] as nat,
                votes as nat,
            ) == self.credits_remaining,
            self.after_vote(option_index, votes).votes_cast[option_index]
                == self.votes_cast[option_index] + votes,
            self.after_vote(option_index, votes).votes_cast.len() == self.votes_cast.len(),
            forall|i: int|
                0 <= i < self.votes_cast.len() ==> self.votes_cast[i] <= #[trigger] self.after_vote(
                    option_index,
                    votes,
                ).votes_cast[i],
            self.after_vote(option_index, votes).total_credits == self.total_credits,
            self.after_vote(option_index, votes).poll == self.poll,
            self.after_vote(option_index, votes).voter == self.voter,
            spent(self.after_vote(option_index, votes).votes_cast) == spent(self.votes_cast)
                + marginal_cost(self.votes_cast[option_index] as nat, votes as nat),
            self.balanced() ==> self.after_vote(option_index, votes).balanced(),
    {
        let current: u64 = self.votes_cast[option_index];
        lemma_total_cost_dominates((current + votes) as nat);
        lemma_marginal_cost_formula(current as nat, votes as nat);
        lemma_spent_update(self.votes_cast, option_index, (current + votes) as u64);
    }

    /// After any run of casts on a balanced entry, the squares of the tally
    /// add up to the credits that have left the budget, which they never exceed.
    pub proof fn lemma_ballots_keep_balance(self, ballots: Seq<(int, u64)>)
        requires
            self.balanced(),
        ensures
            self.after_ballots(ballots).balanced(),
            self.after_ballots(ballots).total_credits == self.total_credits,
            self.after_ballots(ballots).credits_remaining <= self.credits_remaining,
            spent(self.after_ballots(ballots).votes_cast) == self.total_credits
                - self.after_ballots(ballots).credits_remaining,
            spent(self.after_ballots(ballots).votes_cast) <= self.total_credits,
        decreases ballots.len(),
    {
        if ballots.len() > 0 {
            self.lemma_ballots_keep_balance(ballots.drop_last());
            let before = self.after_ballots(ballots.drop_last());
            let (option_index, votes) = ballots.last();
            if before.can_afford(option_index, votes) {
                before.lemma_after_vote(option_index, votes);
            }
        }
    }
}

impl View for Voter {
    type V = VoterView;

    open spec fn view(&self) -> VoterView {
        VoterView {
            poll: self.poll,
            voter: self.voter,
            credits_remaining: self.credits_remaining,
            total_credits: self.total_credits,
            votes_cast: self.votes_cast@,
            bump: self.bump,
        }
    }
}

impl Default for Voter {
    /// An entry that holds no voter yet: no credits and an empty tally.
    fn default() -> (voter: Voter)
        ensures
            voter.poll@ == Seq::new(32, |i: int| 0u8),
            voter.voter@ == Seq::new(32, |i: int| 0u8),
            voter.credits_remaining == 0,
            voter.total_credits == 0,
            voter.votes_cast@.len() == 0,
            voter.bump == 0,
            voter.balanced(),
    {
        Voter {
            poll: Identity::default(),
            voter: Identity::default(),
            credits_remaining: 0,
            total_credits: 0,
            votes_cast: Vec::new(),
            bump: 0,
        }
    }
}

impl Voter {
    /// Bytes that a stored voter entry takes: an 8-byte tag, the two
    /// identities, the two credit counters, a length-prefixed tally of up to
    /// ten options, and the bump.
    pub const SPACE: usize = 8 + 32 + 32 + 8 + 8 + 4 + (8 * 10) + 1;

    /// See [`VoterView::balanced`].
    pub open spec fn balanced(&self) -> bool {
        self@.balanced()
    }

    /// Whether `(current_votes + new_votes)²` fits in a `u64`; the sum and the
    /// square of `current_votes` then fit too.
    pub open spec fn cost_representable(current_votes: u64, new_votes: u64) -> bool {
        total_cost((current_votes + new_votes) as nat) <= u64::MAX
    }

    /// The credits that raising a tally from `current_votes` by `new_votes`
    /// costs: `(current_votes + new_votes)² - current_votes²`. Fails with
    /// `Overflow` exactly when the square of the new tally leaves `u64`.
    pub fn calculate_vote_cost(current_votes: u64, new_votes: u64) -> (r: Result<u64, Error>)
        ensures
            Self::cost_representable(current_votes, new_votes) ==> r == Ok::<u64, Error>(
                marginal_cost(current_votes as nat, new_votes as nat) as u64,
            ),
            !Self::cost_representable(current_votes, new_votes) ==> r == Err::<u64, Error>(
                Error::Cost(ErrorCode::Overflow),
            ),
            r matches Ok(cost) ==> cost == (current_votes + new_votes) * (current_votes
                + new_votes) - current_votes * current_votes,
    {
        proof {
            lemma_marginal_cost_formula(current_votes as nat, new_votes as nat);
            lemma_total_cost_dominates((current_votes + new_votes) as nat);
        }
        let new_total: u64 = match current_votes.checked_add(new_votes) {
            Some(t) => t,
            None => { return Err(Error::Cost(ErrorCode::Overflow)); },
        };
        let new_cost: u64 = match new_total.checked_mul(new_total) {
            Some(c) => c,
            None => { return Err(Error::Cost(ErrorCode::Overflow)); },
        };
        let old_cost: u64 = match current_votes.checked_mul(current_votes) {
            Some(c) => c,
            None => { return Err(Error::Cost(ErrorCode::Overflow)); },
        };
        match new_cost.checked_sub(old_cost) {
            Some(c) => Ok(c),
            None => Err(Error::Cost(ErrorCode::Overflow)),
        }
    }
}

/// Where the cost of a number of votes is representable, so is the cost of
/// any smaller number on the same tally, and it is strictly smaller: as far
/// as [`Voter::calculate_vote_cost`] gives a cost, the cost rises with the votes.
pub proof fn lemma_cost_grows_with_votes(current_votes: u64, fewer: u64, more: u64)
    requires
        fewer < more,
        Voter::cost_representable(current_votes, more),
    ensures
        Voter::cost_representable(current_votes, fewer),
        marginal_cost(current_votes as nat, fewer as nat) < marginal_cost(
            current_votes as nat,
            more as nat,
        ) <= u64::MAX,
{
    lemma_marginal_cost_strictly_increasing(current_votes as nat, fewer as nat, more as nat);
    lemma_marginal_cost_formula(current_votes as nat, more as nat);
    let low: nat = (current_votes + fewer) as nat;
    let high: nat = (current_votes + more) as nat;
    assert(low * low <= high * high) by (nonlinear_arith)
        requires
            low <= high,
    ;
}

/// An empty tally has cost nothing.
pub proof fn lemma_spent_of_zeros(tally: Seq<u64>)
    requires
        forall|i: int| 0 <= i < tally.len() ==> tally[i] == 0,
    ensures
        spent(tally) == 0,
    decreases tally.len(),
{
    if tally.len() > 0 {
        lemma_spent_of_zeros(tally.drop_last());
        assert(total_cost(0) == 0);
    }
}

/// Changing one counter changes the total spent by the difference of the two squares.
pub proof fn lemma_spent_update(tally: Seq<u64>, index: int, value: u64)
    requires
        0 <= index < tally.len(),
    ensures
        spent(tally.update(index, value)) + total_cost(tally[index] as nat) == spent(tally)
            + total_cost(value as nat),
    decreases tally.len(),
{
    let updated = tally.update(index, value);
    if index == tally.len() - 1 {
        assert(updated.drop_last() =~= tally.drop_last());
    } else {
        assert(updated.drop_last() =~= tally.drop_last().update(index, value));
        lemma_spent_update(tally.drop_last(), index, value);
    }
}

} // verus!
