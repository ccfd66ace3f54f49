//! The stored ledger: polls and voter entries in memory, and the four
//! operations on them. A key is never given twice.

use vstd::prelude::*;
use crate::assoc::{
    assoc_map, lemma_assoc_dom, lemma_assoc_get, lemma_assoc_push, lemma_assoc_update,
};
use crate::cast_vote::{CastVote, VoteReceipt};
use crate::close_poll::ClosePoll;
use crate::create_poll::{CreatePoll, CreatePollBumps};
use crate::error::{AccessError, Error};
use crate::identity::Identity;
use crate::ledger_model::LedgerView;
use crate::poll::{Poll, PollView};
use crate::register_voter::{RegisterVoter, RegisterVoterBumps};
use crate::voter::{Voter, VoterView};

verus! {

/// Polls and voter entries in memory, each under its key.
///
/// A ledger starts empty ([`Ledger::new`]) and changes only through
/// [`create_poll`], [`register_voter`], [`cast_vote`] and [`close_poll`], all
/// of which keep the invariant [`Ledger::wf`].
pub struct Ledger {
    poll_keys: Vec<Identity>,
    polls: Vec<Poll>,
    voters: Vec<Voter>,
}

impl View for Ledger {
    type V = LedgerView;

    closed spec fn view(&self) -> LedgerView {
        LedgerView {
            polls: assoc_map(self.poll_keys@, self.poll_views()),
            voters: assoc_map(self.voter_keys(), self.voter_views()),
        }
    }
}

impl Ledger {
    spec fn poll_views(&self) -> Seq<PollView> {
        self.polls@.map_values(|poll: Poll| poll@)
    }

    spec fn voter_keys(&self) -> Seq<(Identity, Identity)> {
        self.voters@.map_values(|entry: Voter| (entry.poll, entry.voter))
    }

    spec fn voter_views(&self) -> Seq<VoterView> {
        self.voters@.map_values(|entry: Voter| entry@)
    }

    /// The invariant of the stored ledger: no key is stored twice, and what
    /// is stored is well formed.
    pub closed spec fn wf(&self) -> bool {
        &&& self.poll_keys@.len() == self.polls@.len()
        &&& self.poll_keys@.no_duplicates()
        &&& self.voter_keys().no_duplicates()
        &&& self@.wf()
    }

    /// What a well-formed ledger holds is well formed.
    pub proof fn lemma_wf_view(&self)
        requires
            self.wf(),
        ensures
            self@.wf(),
    {
    }

    /// A ledger that holds nothing.
    pub fn new() -> (ledger: Ledger)
        ensures
            ledger.wf(),
            ledger@ == LedgerView::empty(),
    {
        let ledger = Ledger { poll_keys: Vec::new(), polls: Vec::new(), voters: Vec::new() };
        assert(ledger.poll_views() =~= Seq::empty());
        assert(ledger.voter_keys() =~= Seq::empty());
        assert(ledger.voter_views() =~= Seq::empty());
        ledger
    }

    /// The position of the poll stored under `key`.
    fn find_poll(&self, key: &Identity) -> (found: Option<usize>)
        requires
            self.wf(),
        ensures
            match found {
                Some(at) => {
                    &&& at < self.polls@.len()
                    &&& self.poll_keys@[at as int] == *key
                    &&& self@.polls.dom().contains(*key)
                    &&& self@.polls[*key] == self.polls@[at as int]@
                },
                None => !self@.polls.dom().contains(*key),
            },
    {
        let mut at: usize = 0;
        while at < self.poll_keys.len()
            invariant
                self.wf(),
                at <= self.poll_keys@.len(),
                forall|j: int| 0 <= j < at ==> self.poll_keys@[j] != *key,
            decreases self.poll_keys@.len() - at,
        {
            proof {
                self.poll_keys@[at as int].lemma_view_injective(*key);
            }
            if self.poll_keys[at] == *key {
                proof {
                    lemma_assoc_get(self.poll_keys@, self.poll_views(), at as int);
                }
                return Some(at);
            }
            at = at + 1;
        }
        proof {
            lemma_assoc_dom(self.poll_keys@, self.poll_views());
        }
        None
    }

    /// The position of a poll of `authority` with this title.
    fn find_title(&self, authority: &Identity, title: &String) -> (found: Option<usize>)
        requires
            self.wf(),
        ensures
            found is Some <==> self@.title_taken(*authority, title@),
    {
        let mut at: usize = 0;
        while at < self.polls.len()
            invariant
                self.wf(),
                at <= self.polls@.len(),
                forall|j: int|
                    0 <= j < at ==> !(#[trigger] self.polls@[j].authority == *authority
                        && self.polls@[j].title@ == title@),
            decreases self.polls@.len() - at,
        {
            proof {
                self.polls@[at as int].authority.lemma_view_injective(*authority);
            }
            if self.polls[at].authority == *authority && self.polls[at].title == *title {
                proof {
                    lemma_assoc_get(self.poll_keys@, self.poll_views(), at as int);
                    assert(self@.polls[self.poll_keys@[at as int]] == self.polls@[at as int]@);
                }
                return Some(at);
            }
            at = at + 1;
        }
        proof {
            lemma_assoc_dom(self.poll_keys@, self.poll_views());
            if self@.title_taken(*authority, title@) {
                let key = choose|key: Identity|
                    #![trigger self@.polls[key]]
                    self@.polls.dom().contains(key) && self@.polls[key].authority == *authority
                        && self@.polls[key].title == title@;
                let j: int = self.poll_keys@.index_of(key);
                lemma_assoc_get(self.poll_keys@, self.poll_views(), j);
                assert(self.polls@[j].authority == *authority);
            }
        }
        None
    }

    /// The position of the entry of `voter` for `poll`.
    fn find_voter(&self, poll: &Identity, voter: &Identity) -> (found: Option<usize>)
        requires
            self.wf(),
        ensures
            match found {
                Some(at) => {
                    &&& at < self.voters@.len()
                    &&& self.voter_keys()[at as int] == (*poll, *voter)
                    &&& self@.voters.dom().contains((*poll, *voter))
                    &&& self@.voters[(*poll, *voter)] == self.voters@[at as int]@
                },
                None => !self@.voters.dom().contains((*poll, *voter)),
            },
    {
        let mut at: usize = 0;
        while at < self.voters.len()
            invariant
                self.wf(),
                at <= self.voters@.len(),
                forall|j: int| 0 <= j < at ==> self.voter_keys()[j] != (*poll, *voter),
            decreases self.voters@.len() - at,
        {
            proof {
                self.voters@[at as int].poll.lemma_view_injective(*poll);
                self.voters@[at as int].voter.lemma_view_injective(*voter);
            }
            if self.voters[at].poll == *poll && self.voters[at].voter == *voter {
                proof {
                    lemma_assoc_get(self.voter_keys(), self.voter_views(), at as int);
                }
                return Some(at);
            }
            at = at + 1;
        }
        proof {
            lemma_assoc_dom(self.voter_keys(), self.voter_views());
        }
        None
    }

    /// The poll stored under `key`, if there is one.
    pub fn poll(&self, key: &Identity) -> (found: Option<&Poll>)
        requires
            self.wf(),
        ensures
            found is Some <==> self@.polls.dom().contains(*key),
            found matches Some(poll) ==> poll@ == self@.polls[*key],
    {
        match self.find_poll(key) {
            Some(at) => Some(&self.polls[at]),
            None => None,
        }
    }

    /// The entry of `voter` for `poll`, if there is one.
    pub fn voter(&self, poll: &Identity, voter: &Identity) -> (found: Option<&Voter>)
        requires
            self.wf(),
        ensures
            found is Some <==> self@.voters.dom().contains((*poll, *voter)),
            found matches Some(entry) ==> entry@ == self@.voters[(*poll, *voter)],
    {
        match self.find_voter(poll, voter) {
            Some(at) => Some(&self.voters[at]),
            None => None,
        }
    }
}

/// Creates a poll owned by `authority` and stores it under `key`.
///
/// Refused with `PollExists` where the key is taken or the authority has a
/// poll of this title; otherwise as [`CreatePoll::create_poll`] decides. A
/// refusal leaves the ledger as it was.
pub fn create_poll(
    ledger: &mut Ledger,
    key: Identity,
    authority: Identity,
    title: String,
    description: String,
    option_count: u8,
    bumps: &CreatePollBumps,
) -> (r: Result<(), Error>)
    requires
        old(ledger).wf(),
    ensures
        final(ledger).wf(),
        r == old(ledger)@.create_poll_verdict(key, authority, title@, description@, option_count),
        r is Ok ==> final(ledger)@ == old(ledger)@.after_create_poll(
            key,
            authority,
            title@,
            description@,
            option_count,
            bumps.poll,
        ),
        r is Err ==> final(ledger)@ == old(ledger)@,
{
    if ledger.find_poll(&key).is_some() || ledger.find_title(&authority, &title).is_some() {
        return Err(Error::Access(AccessError::PollExists));
    }
    let ghost title_view = title@;
    let ghost description_view = description@;
    let mut ctx = CreatePoll { poll: Poll::default(), authority };
    match ctx.create_poll(title, description, option_count, bumps) {
        Ok(()) => {
            proof {
                lemma_assoc_dom(ledger.poll_keys@, ledger.poll_views());
                lemma_assoc_push(ledger.poll_keys@, ledger.poll_views(), key, ctx.poll@);
                ledger@.lemma_create_poll_wf(
                    key,
                    authority,
                    title_view,
                    description_view,
                    option_count,
                    bumps.poll,
                );
            }
            ledger.poll_keys.push(key);
            ledger.polls.push(ctx.poll);
            assert(ledger.poll_views() =~= old(ledger).poll_views().push(ctx.poll@));
            Ok(())
        },
        Err(e) => Err(e),
    }
}

/// Registers `voter` for the poll stored under `poll`, with a budget of
/// `credits` credits.
///
/// Refused with `UnknownPoll` where no such poll is stored, and with
/// `VoterExists` where the voter is registered for the poll already;
/// otherwise as [`RegisterVoter::register_voter`] decides. A refusal leaves
/// the ledger, and so any earlier entry of the voter, as it was.
pub fn register_voter(
    ledger: &mut Ledger,
    poll: Identity,
    voter: Identity,
    credits: u64,
    bumps: &RegisterVoterBumps,
) -> (r: Result<(), Error>)
    requires
        old(ledger).wf(),
    ensures
        final(ledger).wf(),
        r == old(ledger)@.register_voter_verdict(poll, voter, credits),
        r is Ok ==> final(ledger)@ == old(ledger)@.after_register_voter(
            poll,
            voter,
            credits,
            bumps.voter_account,
        ),
        r is Err ==> final(ledger)@ == old(ledger)@,
{
    let at: usize = match ledger.find_poll(&poll) {
        Some(at) => at,
        None => { return Err(Error::Access(AccessError::UnknownPoll)); },
    };
    if ledger.find_voter(&poll, &voter).is_some() {
        return Err(Error::Access(AccessError::VoterExists));
    }
    let stored = ledger.polls.remove(at);
    let mut ctx = RegisterVoter {
        voter_account: Voter::default(),
        poll: stored,
        poll_key: poll,
        voter,
    };
    let r = ctx.register_voter(credits, bumps);
    ledger.polls.insert(at, ctx.poll);
    assert(ledger.polls@ =~= old(ledger).polls@);
    match r {
        Ok(()) => {
            proof {
                lemma_assoc_dom(ledger.voter_keys(), ledger.voter_views());
                lemma_assoc_push(
                    ledger.voter_keys(),
                    ledger.voter_views(),
                    (poll, voter),
                    ctx.voter_account@,
                );
                ledger@.lemma_register_voter_wf(poll, voter, credits, bumps.voter_account);
            }
            ledger.voters.push(ctx.voter_account);
            assert(ledger.voter_keys() =~= old(ledger).voter_keys().push((poll, voter)));
            assert(ledger.voter_views() =~= old(ledger).voter_views().push(ctx.voter_account@));
            Ok(())
        },
        Err(e) => Err(e),
    }
}

/// Casts `votes` votes of `caller` on option `option_index` of the poll
/// stored under `poll`, paid from the entry of `voter` for that poll.
///
/// Refused with `UnknownPoll` or `UnknownVoter` where the poll or the entry
/// is not stored; otherwise as [`CastVote::cast_vote`] decides. A refusal
/// leaves the ledger as it was.
pub fn cast_vote(
    ledger: &mut Ledger,
    caller: Identity,
    poll: Identity,
    voter: Identity,
    option_index: u8,
    votes: u64,
) -> (r: Result<VoteReceipt, Error>)
    requires
        old(ledger).wf(),
    ensures
        final(ledger).wf(),
        match r {
            Ok(receipt) => {
                &&& old(ledger)@.cast_vote_verdict(caller, poll, voter, option_index, votes)
                    == Ok::<u64, Error>(receipt.cost)
                &&& receipt.credits_remaining == old(ledger)@.voters[(
                    poll,
                    voter,
                )].credits_remaining - receipt.cost
                &&& final(ledger)@ == old(ledger)@.after_cast_vote(
                    poll,
                    voter,
                    option_index,
                    votes,
                )
            },
            Err(e) => {
                &&& old(ledger)@.cast_vote_verdict(caller, poll, voter, option_index, votes)
                    == Err::<u64, Error>(e)
                &&& final(ledger)@ == old(ledger)@
            },
        },
{
    let poll_at: usize = match ledger.find_poll(&poll) {
        Some(at) => at,
        None => { return Err(Error::Access(AccessError::UnknownPoll)); },
    };
    let voter_at: usize = match ledger.find_voter(&poll, &voter) {
        Some(at) => at,
        None => { return Err(Error::Access(AccessError::UnknownVoter)); },
    };
    proof {
        assert(ledger@.entry_wf(poll, voter));
    }
    let stored_poll = ledger.polls.remove(poll_at);
    let stored_voter = ledger.voters.remove(voter_at);
    let mut ctx = CastVote { voter_account: stored_voter, poll: stored_poll, voter: caller };
    let r = ctx.cast_vote(option_index, votes);
    proof {
        lemma_assoc_update(
            old(ledger).poll_keys@,
            old(ledger).poll_views(),
            poll_at as int,
            ctx.poll@,
        );
        lemma_assoc_update(
            old(ledger).voter_keys(),
            old(ledger).voter_views(),
            voter_at as int,
            ctx.voter_account@,
        );
        if r is Ok {
            old(ledger)@.lemma_cast_vote_wf(caller, poll, voter, option_index, votes);
        }
    }
    ledger.polls.insert(poll_at, ctx.poll);
    ledger.voters.insert(voter_at, ctx.voter_account);
    assert(ledger.polls@ =~= old(ledger).polls@.update(poll_at as int, ctx.poll));
    assert(ledger.voters@ =~= old(ledger).voters@.update(voter_at as int, ctx.voter_account));
    assert(ledger.poll_views() =~= old(ledger).poll_views().update(poll_at as int, ctx.poll@));
    assert(ledger.voter_views() =~= old(ledger).voter_views().update(
        voter_at as int,
        ctx.voter_account@,
    ));
    assert(ledger.voter_keys() =~= old(ledger).voter_keys());
    assert(ledger@.polls =~= old(ledger)@.polls.insert(poll, ctx.poll@));
    assert(ledger@.voters =~= old(ledger)@.voters.insert((poll, voter), ctx.voter_account@));
    proof {
        if r is Err {
            assert(ledger@.polls =~= old(ledger)@.polls);
            assert(ledger@.voters =~= old(ledger)@.voters);
        }
    }
    r
}

/// Closes the poll stored under `poll` on behalf of `caller` and returns its
/// final totals, one per option.
///
/// Refused with `UnknownPoll` where no such poll is stored; otherwise as
/// [`ClosePoll::close_poll`] decides. A refusal leaves the ledger as it was.
pub fn close_poll(ledger: &mut Ledger, caller: Identity, poll: Identity) -> (r: Result<
    Vec<u64>,
    Error,
>)
    requires
        old(ledger).wf(),
    ensures
        final(ledger).wf(),
        match r {
            Ok(tally) => {
                &&& old(ledger)@.close_poll_verdict(caller, poll) == Ok::<(), Error>(())
                &&& tally@ == old(ledger)@.polls[poll].votes
                &&& final(ledger)@ == old(ledger)@.after_close_poll(poll)
            },
            Err(e) => {
                &&& old(ledger)@.close_poll_verdict(caller, poll) == Err::<(), Error>(e)
                &&& final(ledger)@ == old(ledger)@
            },
        },
{
    let at: usize = match ledger.find_poll(&poll) {
        Some(at) => at,
        None => { return Err(Error::Access(AccessError::UnknownPoll)); },
    };
    let stored = ledger.polls.remove(at);
    let mut ctx = ClosePoll { poll: stored, authority: caller };
    let r = ctx.close_poll();
    proof {
        lemma_assoc_update(old(ledger).poll_keys@, old(ledger).poll_views(), at as int, ctx.poll@);
        if r is Ok {
            old(ledger)@.lemma_close_poll_wf(caller, poll);
        }
    }
    ledger.polls.insert(at, ctx.poll);
    assert(ledger.polls@ =~= old(ledger).polls@.update(at as int, ctx.poll));
    assert(ledger.poll_views() =~= old(ledger).poll_views().update(at as int, ctx.poll@));
    assert(ledger@.polls =~= old(ledger)@.polls.insert(poll, ctx.poll@));
    proof {
        if r is Err {
            assert(ledger@.polls =~= old(ledger)@.polls);
        }
    }
    r
}

} // verus!
