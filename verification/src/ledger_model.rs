//! The ledger as mathematics: every poll under its key, every voter entry
//! under the pair of its poll and its voter, the four operations as
//! transitions between such ledgers, and what holds of every ledger that they
//! reach.

use vstd::prelude::*;
use crate::cast_vote::vote_verdict;
use crate::close_poll::close_verdict;
use crate::cost::marginal_cost;
use crate::create_poll::create_verdict;
use crate::error::{AccessError, CloseError, Error, RegisterError, VoteError};
use crate::identity::Identity;
use crate::poll::PollView;
use crate::register_voter::register_verdict;
use crate::voter::{spent, VoterView};

verus! {

/// What a ledger holds, as two maps.
pub struct LedgerView {
    /// The polls, each under the key that it was created with.
    pub polls: Map<Identity, PollView>,
    /// The voter entries, each under its poll's key and its voter.
    pub voters: Map<(Identity, Identity), VoterView>,
}

impl LedgerView {
    /// The ledger that holds nothing.
    pub open spec fn empty() -> LedgerView {
        LedgerView { polls: Map::empty(), voters: Map::empty() }
    }

    /// Whether `authority` has a poll of this title.
    pub open spec fn title_taken(self, authority: Identity, title: Seq<char>) -> bool {
        exists|key: Identity|
            #![trigger self.polls[key]]
            self.polls.dom().contains(key) && self.polls[key].authority == authority
                && self.polls[key].title == title
    }

    /// Whether the entry of `voter` for `poll` fits its poll: it names its own
    /// key, has one counter per option, is balanced, and holds on no option
    /// more votes than the poll has received for it.
    pub open spec fn entry_wf(self, poll: Identity, voter: Identity) -> bool {
        let entry = self.voters[(poll, voter)];
        &&& self.polls.dom().contains(poll)
        &&& entry.poll == poll
        &&& entry.voter == voter
        &&& entry.votes_cast.len() == self.polls[poll].option_count
        &&& entry.balanced()
        &&& forall|i: int|
            0 <= i < entry.votes_cast.len() ==> #[trigger] entry.votes_cast[i]
                <= self.polls[poll].votes[i]
    }

    /// The invariant of a ledger: every poll is well formed, no authority has
    /// two polls of one title, and every voter entry fits its poll.
    pub open spec fn wf(self) -> bool {
        &&& forall|key: Identity| #[trigger]
            self.polls.dom().contains(key) ==> self.polls[key].wf()
        &&& forall|a: Identity, b: Identity|
            #![trigger self.polls[a], self.polls[b]]
            self.polls.dom().contains(a) && self.polls.dom().contains(b) && a != b ==> !(
            self.polls[a].authority == self.polls[b].authority && self.polls[a].title
                == self.polls[b].title)
        &&& forall|poll: Identity, voter: Identity| #[trigger]
            self.voters.dom().contains((poll, voter)) ==> self.entry_wf(poll, voter)
    }

    /// Whether a poll may be created under `key`: the key and the pair of
    /// authority and title must be free, and the values must be valid.
    pub open spec fn create_poll_verdict(
        self,
        key: Identity,
        authority: Identity,
        title: Seq<char>,
        description: Seq<char>,
        option_count: u8,
    ) -> Result<(), Error> {
        if self.polls.dom().contains(key) || self.title_taken(authority, title) {
            Err(Error::Access(AccessError::PollExists))
        } else {
            create_verdict(title, description, option_count)
        }
    }

    /// The ledger after a poll has been created under `key`.
    pub open spec fn after_create_poll(
        self,
        key: Identity,
        authority: Identity,
        title: Seq<char>,
        description: Seq<char>,
        option_count: u8,
        bump: u8,
    ) -> LedgerView {
        LedgerView {
            polls: self.polls.insert(
                key,
                PollView::created(authority, title, description, option_count, bump),
            ),
            ..self
        }
    }

    /// Whether `voter` may register for `poll` with `credits` credits: the
    /// poll must exist, the voter must not be registered for it yet, and the
    /// registration must be valid.
    pub open spec fn register_voter_verdict(
        self,
        poll: Identity,
        voter: Identity,
        credits: u64,
    ) -> Result<(), Error> {
        if !self.polls.dom().contains(poll) {
            Err(Error::Access(AccessError::UnknownPoll))
        } else if self.voters.dom().contains((poll, voter)) {
            Err(Error::Access(AccessError::VoterExists))
        } else {
            register_verdict(self.polls[poll], credits)
        }
    }

    /// The ledger after `voter` has registered for `poll`.
    pub open spec fn after_register_voter(
        self,
        poll: Identity,
        voter: Identity,
        credits: u64,
        bump: u8,
    ) -> LedgerView {
        LedgerView {
            voters: self.voters.insert(
                (poll, voter),
                VoterView::registered(poll, voter, credits, self.polls[poll].option_count, bump),
            ),
            ..self
        }
    }

    /// What it comes to when `caller` casts `votes` votes on option
    /// `option_index` of `poll` from the entry of `voter`: the poll and the
    /// entry must exist, and the cast must be valid.
    pub open spec fn cast_vote_verdict(
        self,
        caller: Identity,
        poll: Identity,
        voter: Identity,
        option_index: u8,
        votes: u64,
    ) -> Result<u64, Error> {
        if !self.polls.dom().contains(poll) {
            Err(Error::Access(AccessError::UnknownPoll))
        } else if !self.voters.dom().contains((poll, voter)) {
            Err(Error::Access(AccessError::UnknownVoter))
        } else {
            vote_verdict(self.polls[poll], self.voters[(poll, voter)], caller, option_index, votes)
        }
    }

    /// The ledger after `votes` votes on option `option_index` of `poll` have
    /// been cast from the entry of `voter`.
    pub open spec fn after_cast_vote(
        self,
        poll: Identity,
        voter: Identity,
        option_index: u8,
        votes: u64,
    ) -> LedgerView {
        LedgerView {
            polls: self.polls.insert(poll, self.polls[poll].after_vote(option_index as int, votes)),
            voters: self.voters.insert(
                (poll, voter),
                self.voters[(poll, voter)].after_vote(option_index as int, votes),
            ),
        }
    }

    /// Whether `caller` may close `poll`: the poll must exist, be the
    /// caller's, and be open.
    pub open spec fn close_poll_verdict(self, caller: Identity, poll: Identity) -> Result<
        (),
        Error,
    > {
        if !self.polls.dom().contains(poll) {
            Err(Error::Access(AccessError::UnknownPoll))
        } else {
            close_verdict(self.polls[poll], caller)
        }
    }

    /// The ledger after `poll` has been closed.
    pub open spec fn after_close_poll(self, poll: Identity) -> LedgerView {
        LedgerView { polls: self.polls.insert(poll, self.polls[poll].closed()), ..self }
    }

    /// The empty ledger is well formed.
    pub proof fn lemma_empty_wf()
        ensures
            Self::empty().wf(),
    {
    }

    /// Creating a poll keeps the ledger well formed.
    pub proof fn lemma_create_poll_wf(
        self,
        key: Identity,
        authority: Identity,
        title: Seq<char>,
        description: Seq<char>,
        option_count: u8,
        bump: u8,
    )
        requires
            self.wf(),
            self.create_poll_verdict(key, authority, title, description, option_count) is Ok,
        ensures
            self.after_create_poll(key, authority, title, description, option_count, bump).wf(),
    {
        let after = self.after_create_poll(key, authority, title, description, option_count, bump);
        assert forall|poll: Identity, voter: Identity| #[trigger]
            after.voters.dom().contains((poll, voter)) implies after.entry_wf(poll, voter) by {
            assert(self.entry_wf(poll, voter));
        }
    }

    /// Registering a voter keeps the ledger well formed.
    pub proof fn lemma_register_voter_wf(
        self,
        poll: Identity,
        voter: Identity,
        credits: u64,
        bump: u8,
    )
        requires
            self.wf(),
            self.register_voter_verdict(poll, voter, credits) is Ok,
        ensures
            self.after_register_voter(poll, voter, credits, bump).wf(),
    {
        let after = self.after_register_voter(poll, voter, credits, bump);
        VoterView::lemma_registered_is_balanced(
            poll,
            voter,
            credits,
            self.polls[poll].option_count,
            bump,
        );
        assert forall|p: Identity, v: Identity| #[trigger]
            after.voters.dom().contains((p, v)) implies after.entry_wf(p, v) by {
            if (p, v) != (poll, voter) {
                assert(self.entry_wf(p, v));
            }
        }
    }

    /// Casting votes keeps the ledger well formed.
    pub proof fn lemma_cast_vote_wf(
        self,
        caller: Identity,
        poll: Identity,
        voter: Identity,
        option_index: u8,
        votes: u64,
    )
        requires
            self.wf(),
            self.cast_vote_verdict(caller, poll, voter, option_index, votes) is Ok,
        ensures
            self.after_cast_vote(poll, voter, option_index, votes).wf(),
    {
        let after = self.after_cast_vote(poll, voter, option_index, votes);
        let index: int = option_index as int;
        assert(self.entry_wf(poll, voter));
        self.voters[(poll, voter)].lemma_after_vote(index, votes);
        assert forall|p: Identity, v: Identity| #[trigger]
            after.voters.dom().contains((p, v)) implies after.entry_wf(p, v) by {
            assert(self.entry_wf(p, v));
        }
    }

    /// Closing a poll keeps the ledger well formed.
    pub proof fn lemma_close_poll_wf(self, caller: Identity, poll: Identity)
        requires
            self.wf(),
            self.close_poll_verdict(caller, poll) is Ok,
        ensures
            self.after_close_poll(poll).wf(),
    {
        let after = self.after_close_poll(poll);
        assert forall|p: Identity, v: Identity| #[trigger]
            after.voters.dom().contains((p, v)) implies after.entry_wf(p, v) by {
            assert(self.entry_wf(p, v));
        }
    }
}

/// A request to the ledger, as mathematical values.
pub enum Request {
    /// Create a poll under `key`, owned by `authority`.
    CreatePoll {
        key: Identity,
        authority: Identity,
        title: Seq<char>,
        description: Seq<char>,
        option_count: u8,
        bump: u8,
    },
    /// Register `voter` for `poll` with `credits` credits.
    RegisterVoter { poll: Identity, voter: Identity, credits: u64, bump: u8 },
    /// Cast `votes` votes of `caller` on option `option_index` of `poll`,
    /// paid from the entry of `voter`.
    CastVote { caller: Identity, poll: Identity, voter: Identity, option_index: u8, votes: u64 },
    /// Close `poll` on behalf of `caller`.
    ClosePoll { caller: Identity, poll: Identity },
}

impl LedgerView {
    /// Whether the ledger grants the request.
    pub open spec fn grants(self, request: Request) -> bool {
        match request {
            Request::CreatePoll { key, authority, title, description, option_count, .. } => {
                self.create_poll_verdict(key, authority, title, description, option_count) is Ok
            },
            Request::RegisterVoter { poll, voter, credits, .. } => {
                self.register_voter_verdict(poll, voter, credits) is Ok
            },
            Request::CastVote { caller, poll, voter, option_index, votes } => {
                self.cast_vote_verdict(caller, poll, voter, option_index, votes) is Ok
            },
            Request::ClosePoll { caller, poll } => self.close_poll_verdict(caller, poll) is Ok,
        }
    }

    /// The ledger after the request: changed as the operation says where the
    /// request is granted, and as it was where it is refused.
    pub open spec fn step(self, request: Request) -> LedgerView {
        if !self.grants(request) {
            self
        } else {
            match request {
                Request::CreatePoll { key, authority, title, description, option_count, bump } => {
                    self.after_create_poll(key, authority, title, description, option_count, bump)
                },
                Request::RegisterVoter { poll, voter, credits, bump } => {
                    self.after_register_voter(poll, voter, credits, bump)
                },
                Request::CastVote { poll, voter, option_index, votes, .. } => {
                    self.after_cast_vote(poll, voter, option_index, votes)
                },
                Request::ClosePoll { poll, .. } => self.after_close_poll(poll),
            }
        }
    }

    /// The ledger after a run of requests, one after the other.
    pub open spec fn run(self, requests: Seq<Request>) -> LedgerView
        decreases requests.len(),
    {
        if requests.len() == 0 {
            self
        } else {
            self.run(requests.drop_last()).step(requests.last())
        }
    }

    /// Whatever is requested of a well-formed ledger, it stays well formed.
    pub proof fn lemma_step_wf(self, request: Request)
        requires
            self.wf(),
        ensures
            self.step(request).wf(),
    {
        if self.grants(request) {
            match request {
                Request::CreatePoll { key, authority, title, description, option_count, bump } => {
                    self.lemma_create_poll_wf(
                        key,
                        authority,
                        title,
                        description,
                        option_count,
                        bump,
                    );
                },
                Request::RegisterVoter { poll, voter, credits, bump } => {
                    self.lemma_register_voter_wf(poll, voter, credits, bump);
                },
                Request::CastVote { caller, poll, voter, option_index, votes } => {
                    self.lemma_cast_vote_wf(caller, poll, voter, option_index, votes);
                },
                Request::ClosePoll { caller, poll } => {
                    self.lemma_close_poll_wf(caller, poll);
                },
            }
        }
    }

    /// Every ledger that a run of requests reaches from a well-formed ledger,
    /// such as the empty one, is well formed. In particular every voter
    /// entry in it is balanced: the squares of its tally add up to the credits
    /// that have left its budget, which they never exceed.
    pub proof fn lemma_run_wf(self, requests: Seq<Request>)
        requires
            self.wf(),
        ensures
            self.run(requests).wf(),
            forall|poll: Identity, voter: Identity| #[trigger]
                self.run(requests).voters.dom().contains((poll, voter)) ==> {
                    let entry = self.run(requests).voters[(poll, voter)];
                    &&& entry.balanced()
                    &&& spent(entry.votes_cast) == entry.total_credits - entry.credits_remaining
                    &&& spent(entry.votes_cast) <= entry.total_credits
                },
        decreases requests.len(),
    {
        if requests.len() > 0 {
            self.lemma_run_wf(requests.drop_last());
            self.run(requests.drop_last()).lemma_step_wf(requests.last());
        }
        let reached = self.run(requests);
        assert forall|poll: Identity, voter: Identity| #[trigger]
            reached.voters.dom().contains((poll, voter)) implies reached.voters[(
            poll,
            voter,
        )].balanced() by {
            assert(reached.entry_wf(poll, voter));
        }
    }

    /// A voter registers for a poll once. After a registration that was
    /// granted, the entry is the fresh one, and a second registration of the
    /// same voter for the same poll is refused with `VoterExists`, whatever
    /// credits it asks for; being refused, it leaves the ledger, and so the
    /// first entry, as it is.
    pub proof fn lemma_second_registration_refused(
        self,
        poll: Identity,
        voter: Identity,
        first_credits: u64,
        first_bump: u8,
        second_credits: u64,
        second_bump: u8,
    )
        requires
            self.register_voter_verdict(poll, voter, first_credits) is Ok,
        ensures
            ({
                let once = self.after_register_voter(poll, voter, first_credits, first_bump);
                let second = Request::RegisterVoter {
                    poll,
                    voter,
                    credits: second_credits,
                    bump: second_bump,
                };
                &&& once.voters[(poll, voter)] == VoterView::registered(
                    poll,
                    voter,
                    first_credits,
                    self.polls[poll].option_count,
                    first_bump,
                )
                &&& once.register_voter_verdict(poll, voter, second_credits) == Err::<(), Error>(
                    Error::Access(AccessError::VoterExists),
                )
                &&& once.step(second) == once
            }),
    {
    }

    /// An authority creates a poll of a given title once: after a creation
    /// that was granted, a second one under the same key, or by the same
    /// authority with the same title, is refused with `PollExists`.
    pub proof fn lemma_second_creation_refused(
        self,
        key: Identity,
        authority: Identity,
        title: Seq<char>,
        description: Seq<char>,
        option_count: u8,
        bump: u8,
        other_key: Identity,
        other_description: Seq<char>,
        other_option_count: u8,
    )
        requires
            self.create_poll_verdict(key, authority, title, description, option_count) is Ok,
        ensures
            ({
                let once = self.after_create_poll(
                    key,
                    authority,
                    title,
                    description,
                    option_count,
                    bump,
                );
                once.create_poll_verdict(
                    other_key,
                    authority,
                    title,
                    other_description,
                    other_option_count,
                ) == Err::<(), Error>(Error::Access(AccessError::PollExists))
            }),
    {
        let once = self.after_create_poll(key, authority, title, description, option_count, bump);
        assert(once.polls.dom().contains(key) && once.polls[key].authority == authority
            && once.polls[key].title == title);
    }

    /// Closing is final. Once a poll has been closed, closing it again is
    /// refused with `PollAlreadyClosed`, every cast on it is refused with
    /// `PollNotActive`, and so is every registration for it.
    pub proof fn lemma_closed_poll_refuses(self, caller: Identity, poll: Identity)
        requires
            self.close_poll_verdict(caller, poll) is Ok,
        ensures
            self.after_close_poll(poll).close_poll_verdict(caller, poll) == Err::<(), Error>(
                Error::Close(CloseError::PollAlreadyClosed),
            ),
            forall|anyone: Identity, voter: Identity, option_index: u8, votes: u64|
                self.voters.dom().contains((poll, voter)) ==> #[trigger] self.after_close_poll(
                    poll,
                ).cast_vote_verdict(anyone, poll, voter, option_index, votes) == Err::<u64, Error>(
                    Error::Vote(VoteError::PollNotActive),
                ),
            forall|voter: Identity, credits: u64|
                !self.voters.dom().contains((poll, voter)) ==> #[trigger] self.after_close_poll(
                    poll,
                ).register_voter_verdict(poll, voter, credits) == Err::<(), Error>(
                    Error::Register(RegisterError::PollNotActive),
                ),
    {
    }

    /// A closed poll never changes again, and so never opens again: whatever
    /// is requested of the ledger, the poll stays as it was when it closed.
    pub proof fn lemma_closed_poll_is_frozen(self, poll: Identity, requests: Seq<Request>)
        requires
            self.polls.dom().contains(poll),
            !self.polls[poll].is_active,
        ensures
            self.run(requests).polls.dom().contains(poll),
            self.run(requests).polls[poll] == self.polls[poll],
        decreases requests.len(),
    {
        if requests.len() > 0 {
            self.lemma_closed_poll_is_frozen(poll, requests.drop_last());
        }
    }

    /// A cast that is granted moves `votes` votes and nothing else: the
    /// poll's total for the option and the voter's counter for it rise by
    /// `votes`, the voter's credits fall by the cost, and every other total,
    /// counter, poll and entry stays as it was.
    pub proof fn lemma_cast_vote_moves_votes(
        self,
        caller: Identity,
        poll: Identity,
        voter: Identity,
        option_index: u8,
        votes: u64,
    )
        requires
            self.wf(),
            self.cast_vote_verdict(caller, poll, voter, option_index, votes) is Ok,
        ensures
            ({
                let after = self.after_cast_vote(poll, voter, option_index, votes);
                let cost: u64 = self.cast_vote_verdict(
                    caller,
                    poll,
                    voter,
                    option_index,
                    votes,
                )->Ok_0;
                &&& caller == voter
                &&& votes > 0
                &&& after.polls.dom() == self.polls.dom()
                &&& after.voters.dom() == self.voters.dom()
                &&& after.polls[poll].votes[option_index as int]
                    == self.polls[poll].votes[option_index as int] + votes
                &&& after.voters[(poll, voter)].votes_cast[option_index as int] == self.voters[(
                    poll,
                    voter,
                )].votes_cast[option_index as int] + votes
                &&& after.voters[(poll, voter)].credits_remaining + cost == self.voters[(
                    poll,
                    voter,
                )].credits_remaining
                &&& cost == marginal_cost(
                    self.voters[(poll, voter)].votes_cast[option_index as int] as nat,
                    votes as nat,
                )
                &&& forall|i: int|
                    0 <= i < self.polls[poll].option_count && i != option_index ==> {
                        &&& #[trigger] after.polls[poll].votes[i] == self.polls[poll].votes[i]
                        &&& after.voters[(poll, voter)].votes_cast[i] == self.voters[(
                            poll,
                            voter,
                        )].votes_cast[i]
                    }
                &&& forall|other: Identity|
                    other != poll ==> #[trigger] after.polls[other] == self.polls[other]
                &&& forall|p: Identity, v: Identity|
                    (p, v) != (poll, voter) ==> #[trigger] after.voters[(p, v)] == self.voters[(
                        p,
                        v,
                    )]
            }),
    {
        let after = self.after_cast_vote(poll, voter, option_index, votes);
        assert(self.entry_wf(poll, voter));
        assert(self.polls[poll].wf());
        self.voters[(poll, voter)].lemma_after_vote(option_index as int, votes);
        assert(after.polls.dom() =~= self.polls.dom());
        assert(after.voters.dom() =~= self.voters.dom());
    }

    /// No request rewrites history. A poll stays in the ledger with its
    /// authority, texts and option count; it may close but not open again, and
    /// none of its totals falls. A voter entry stays in the ledger with its
    /// poll, its voter and its budget; its remaining credits do not rise and
    /// none of its counters falls.
    pub proof fn lemma_step_keeps_history(self, request: Request)
        requires
            self.wf(),
        ensures
            forall|poll: Identity| #[trigger]
                self.polls.dom().contains(poll) ==> {
                    let before = self.polls[poll];
                    let after = self.step(request).polls[poll];
                    &&& self.step(request).polls.dom().contains(poll)
                    &&& after.authority == before.authority
                    &&& after.title == before.title
                    &&& after.description == before.description
                    &&& after.option_count == before.option_count
                    &&& after.is_active ==> before.is_active
                    &&& after.votes.len() == before.votes.len()
                    &&& forall|i: int|
                        0 <= i < before.votes.len() ==> before.votes[i] <= #[trigger] after.votes[i]
                },
            forall|poll: Identity, voter: Identity| #[trigger]
                self.voters.dom().contains((poll, voter)) ==> {
                    let before = self.voters[(poll, voter)];
                    let after = self.step(request).voters[(poll, voter)];
                    &&& self.step(request).voters.dom().contains((poll, voter))
                    &&& after.poll == before.poll
                    &&& after.voter == before.voter
                    &&& after.total_credits == before.total_credits
                    &&& after.credits_remaining <= before.credits_remaining
                    &&& after.votes_cast.len() == before.votes_cast.len()
                    &&& forall|i: int|
                        0 <= i < before.votes_cast.len() ==> before.votes_cast[i]
                            <= #[trigger] after.votes_cast[i]
                },
    {
        if self.grants(request) {
            match request {
                Request::CastVote { poll, voter, option_index, votes, .. } => {
                    assert(self.entry_wf(poll, voter));
                    self.voters[(poll, voter)].lemma_after_vote(option_index as int, votes);
                    assert(self.polls[poll].wf());
                },
                _ => {},
            }
        }
    }

    /// A run of requests rewrites no history either; see
    /// [`Self::lemma_step_keeps_history`].
    pub proof fn lemma_run_keeps_history(self, requests: Seq<Request>)
        requires
            self.wf(),
        ensures
            forall|poll: Identity| #[trigger]
                self.polls.dom().contains(poll) ==> {
                    let before = self.polls[poll];
                    let after = self.run(requests).polls[poll];
                    &&& self.run(requests).polls.dom().contains(poll)
                    &&& after.authority == before.authority
                    &&& after.title == before.title
                    &&& after.description == before.description
                    &&& after.option_count == before.option_count
                    &&& after.is_active ==> before.is_active
                    &&& after.votes.len() == before.votes.len()
                    &&& forall|i: int|
                        0 <= i < before.votes.len() ==> before.votes[i] <= #[trigger] after.votes[i]
                },
            forall|poll: Identity, voter: Identity| #[trigger]
                self.voters.dom().contains((poll, voter)) ==> {
                    let before = self.voters[(poll, voter)];
                    let after = self.run(requests).voters[(poll, voter)];
                    &&& self.run(requests).voters.dom().contains((poll, voter))
                    &&& after.poll == before.poll
                    &&& after.voter == before.voter
                    &&& after.total_credits == before.total_credits
                    &&& after.credits_remaining <= before.credits_remaining
                    &&& after.votes_cast.len() == before.votes_cast.len()
                    &&& forall|i: int|
                        0 <= i < before.votes_cast.len() ==> before.votes_cast[i]
                            <= #[trigger] after.votes_cast[i]
                },
        decreases requests.len(),
    {
        if requests.len() > 0 {
            let earlier = self.run(requests.drop_last());
            self.lemma_run_keeps_history(requests.drop_last());
            self.lemma_run_wf(requests.drop_last());
            earlier.lemma_step_keeps_history(requests.last());
            assert forall|poll: Identity| #[trigger] self.polls.dom().contains(poll) implies ({
                let before = self.polls[poll];
                let after = self.run(requests).polls[poll];
                &&& self.run(requests).polls.dom().contains(poll)
                &&& after.authority == before.authority
                &&& after.title == before.title
                &&& after.description == before.description
                &&& after.option_count == before.option_count
                &&& after.is_active ==> before.is_active
                &&& after.votes.len() == before.votes.len()
                &&& forall|i: int|
                    0 <= i < before.votes.len() ==> before.votes[i] <= #[trigger] after.votes[i]
            }) by {
                assert(earlier.polls.dom().contains(poll));
            }
            assert forall|poll: Identity, voter: Identity| #[trigger]
                self.voters.dom().contains((poll, voter)) implies ({
                let before = self.voters[(poll, voter)];
                let after = self.run(requests).voters[(poll, voter)];
                &&& self.run(requests).voters.dom().contains((poll, voter))
                &&& after.poll == before.poll
                &&& after.voter == before.voter
                &&& after.total_credits == before.total_credits
                &&& after.credits_remaining <= before.credits_remaining
                &&& after.votes_cast.len() == before.votes_cast.len()
                &&& forall|i: int|
                    0 <= i < before.votes_cast.len() ==> before.votes_cast[i]
                        <= #[trigger] after.votes_cast[i]
            }) by {
                assert(earlier.voters.dom().contains((poll, voter)));
            }
        }
    }

    /// The votes that the granted casts of a run put on an option of a poll.
    pub open spec fn votes_received(
        self,
        requests: Seq<Request>,
        poll: Identity,
        option_index: u8,
    ) -> nat
        decreases requests.len(),
    {
        if requests.len() == 0 {
            0
        } else {
            let earlier = self.votes_received(requests.drop_last(), poll, option_index);
            match requests.last() {
                Request::CastVote { poll: to, option_index: on, votes, .. } => {
                    if to == poll && on == option_index && self.run(requests.drop_last()).grants(
                        requests.last(),
                    ) {
                        earlier + votes as nat
                    } else {
                        earlier
                    }
                },
                _ => earlier,
            }
        }
    }

    /// The votes that the granted casts of a run put on an option of a poll
    /// from the entry of one voter.
    pub open spec fn votes_contributed(
        self,
        requests: Seq<Request>,
        poll: Identity,
        voter: Identity,
        option_index: u8,
    ) -> nat
        decreases requests.len(),
    {
        if requests.len() == 0 {
            0
        } else {
            let earlier = self.votes_contributed(requests.drop_last(), poll, voter, option_index);
            match requests.last() {
                Request::CastVote { poll: to, voter: from, option_index: on, votes, .. } => {
                    if to == poll && from == voter && on == option_index && self.run(
                        requests.drop_last(),
                    ).grants(requests.last()) {
                        earlier + votes as nat
                    } else {
                        earlier
                    }
                },
                _ => earlier,
            }
        }
    }

    /// Votes are neither lost nor made. Over any run of requests, the total
    /// of an option grows by exactly the votes granted on it, and the counter
    /// of a voter by exactly the votes granted from the voter's entry. So what
    /// one voter has contributed to a total exceeds neither the total nor the
    /// voter's own counter.
    pub proof fn lemma_run_counts_votes(
        self,
        requests: Seq<Request>,
        poll: Identity,
        voter: Identity,
        option_index: u8,
    )
        requires
            self.wf(),
            self.polls.dom().contains(poll),
            option_index < self.polls[poll].option_count,
        ensures
            self.run(requests).polls[poll].votes[option_index as int]
                == self.polls[poll].votes[option_index as int] + self.votes_received(
                requests,
                poll,
                option_index,
            ),
            self.votes_contributed(requests, poll, voter, option_index) <= self.votes_received(
                requests,
                poll,
                option_index,
            ),
            self.voters.dom().contains((poll, voter)) ==> self.run(requests).voters[(
                poll,
                voter,
            )].votes_cast[option_index as int] == self.voters[(
                poll,
                voter,
            )].votes_cast[option_index as int] + self.votes_contributed(
                requests,
                poll,
                voter,
                option_index,
            ),
        decreases requests.len(),
    {
        if requests.len() > 0 {
            let earlier = self.run(requests.drop_last());
            let last = requests.last();
            self.lemma_run_counts_votes(requests.drop_last(), poll, voter, option_index);
            self.lemma_run_wf(requests.drop_last());
            self.lemma_run_keeps_history(requests.drop_last());
            assert(earlier.polls.dom().contains(poll));
            assert(earlier.polls[poll].wf());
            if self.voters.dom().contains((poll, voter)) {
                assert(earlier.entry_wf(poll, voter));
            }
            if earlier.grants(last) {
                match last {
                    Request::CastVote { caller, poll: to, voter: from, option_index: on, votes } => {
                        earlier.lemma_cast_vote_moves_votes(caller, to, from, on, votes);
                    },
                    _ => {},
                }
            }
        }
    }
}

} // verus!
