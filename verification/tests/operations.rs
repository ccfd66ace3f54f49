use quadratic_voting::{
    AccessError, CastVote, CloseError, ClosePoll, CreatePoll, CreatePollBumps, Error, ErrorCode,
    Identity, Poll, QuadraticVotingError, RegisterError, RegisterVoter, RegisterVoterBumps,
    VoteError, VoteReceipt, Voter,
};

fn id(tag: u8) -> Identity {
    Identity::new([tag; 32])
}

fn blank_poll() -> Poll {
    Poll {
        authority: id(0),
        title: String::new(),
        description: String::new(),
        option_count: 0,
        votes: Vec::new(),
        is_active: false,
        bump: 0,
    }
}

fn blank_voter() -> Voter {
    Voter {
        poll: id(0),
        voter: id(0),
        credits_remaining: 0,
        total_credits: 0,
        votes_cast: Vec::new(),
        bump: 0,
    }
}

fn new_poll(authority: Identity, title: &str, description: &str, options: u8) -> Poll {
    let mut ctx = CreatePoll { poll: blank_poll(), authority };
    let r = ctx.create_poll(
        title.to_string(),
        description.to_string(),
        options,
        &CreatePollBumps { poll: 254 },
    );
    assert_eq!(r, Ok(()));
    ctx.poll
}

fn new_voter(poll: Poll, poll_key: Identity, voter: Identity, credits: u64) -> (Poll, Voter) {
    let mut ctx = RegisterVoter { voter_account: blank_voter(), poll, poll_key, voter };
    let r = ctx.register_voter(credits, &RegisterVoterBumps { voter_account: 253 });
    assert_eq!(r, Ok(()));
    (ctx.poll, ctx.voter_account)
}

#[test]
fn create_poll_starts_open_with_zero_totals() {
    let poll = new_poll(id(1), "T", "D", 2);
    assert_eq!(poll.authority, id(1));
    assert_eq!(poll.title, "T");
    assert_eq!(poll.description, "D");
    assert_eq!(poll.option_count, 2);
    assert_eq!(poll.votes, vec![0, 0]);
    assert!(poll.is_active);
    assert_eq!(poll.bump, 254);
}

#[test]
fn create_poll_accepts_the_bounds() {
    let title = "t".repeat(100);
    let description = "d".repeat(500);
    let poll = new_poll(id(1), &title, &description, 10);
    assert_eq!(poll.votes, vec![0; 10]);
    let poll = new_poll(id(1), "", "", 1);
    assert_eq!(poll.votes, vec![0]);
}

#[test]
fn create_poll_rejects_a_long_title() {
    let mut ctx = CreatePoll { poll: blank_poll(), authority: id(1) };
    let r = ctx.create_poll("t".repeat(101), "D".to_string(), 2, &CreatePollBumps { poll: 1 });
    assert_eq!(r, Err(Error::Poll(QuadraticVotingError::TitleTooLong)));
    assert_eq!(ctx.poll.option_count, 0);
    assert!(ctx.poll.votes.is_empty());
    assert!(!ctx.poll.is_active);
    assert_eq!(ctx.poll.title, "");
}

#[test]
fn create_poll_counts_bytes_not_characters() {
    // 51 two-byte characters are 102 bytes.
    let mut ctx = CreatePoll { poll: blank_poll(), authority: id(1) };
    let r = ctx.create_poll("é".repeat(51), "D".to_string(), 2, &CreatePollBumps { poll: 1 });
    assert_eq!(r, Err(Error::Poll(QuadraticVotingError::TitleTooLong)));
    let r = ctx.create_poll("é".repeat(50), "D".to_string(), 2, &CreatePollBumps { poll: 1 });
    assert_eq!(r, Ok(()));
}

#[test]
fn create_poll_rejects_a_long_description() {
    let mut ctx = CreatePoll { poll: blank_poll(), authority: id(1) };
    let r = ctx.create_poll("T".to_string(), "d".repeat(501), 2, &CreatePollBumps { poll: 1 });
    assert_eq!(r, Err(Error::Poll(QuadraticVotingError::DescriptionTooLong)));
    assert!(!ctx.poll.is_active);
}

#[test]
fn create_poll_reports_the_title_before_the_rest() {
    let mut ctx = CreatePoll { poll: blank_poll(), authority: id(1) };
    let r = ctx.create_poll("t".repeat(101), "d".repeat(501), 0, &CreatePollBumps { poll: 1 });
    assert_eq!(r, Err(Error::Poll(QuadraticVotingError::TitleTooLong)));
    let r = ctx.create_poll("T".to_string(), "d".repeat(501), 0, &CreatePollBumps { poll: 1 });
    assert_eq!(r, Err(Error::Poll(QuadraticVotingError::DescriptionTooLong)));
}

#[test]
fn create_poll_rejects_option_counts_out_of_range() {
    let mut ctx = CreatePoll { poll: blank_poll(), authority: id(1) };
    let r = ctx.create_poll("T".to_string(), "D".to_string(), 0, &CreatePollBumps { poll: 1 });
    assert_eq!(r, Err(Error::Poll(QuadraticVotingError::InvalidOptionCount)));
    let r = ctx.create_poll("T".to_string(), "D".to_string(), 11, &CreatePollBumps { poll: 1 });
    assert_eq!(r, Err(Error::Poll(QuadraticVotingError::InvalidOptionCount)));
    let r = ctx.create_poll("T".to_string(), "D".to_string(), 255, &CreatePollBumps { poll: 1 });
    assert_eq!(r, Err(Error::Poll(QuadraticVotingError::InvalidOptionCount)));
    assert!(!ctx.poll.is_active);
}

#[test]
fn register_voter_grants_the_whole_budget() {
    let poll = new_poll(id(1), "T", "D", 2);
    let (poll, voter) = new_voter(poll, id(9), id(2), 100);
    assert_eq!(voter.poll, id(9));
    assert_eq!(voter.voter, id(2));
    assert_eq!(voter.credits_remaining, 100);
    assert_eq!(voter.total_credits, 100);
    assert_eq!(voter.votes_cast, vec![0, 0]);
    assert_eq!(voter.bump, 253);
    assert_eq!(poll.votes, vec![0, 0]);
    assert!(poll.is_active);
}

#[test]
fn register_voter_rejects_zero_credits() {
    let poll = new_poll(id(1), "T", "D", 2);
    let mut ctx =
        RegisterVoter { voter_account: blank_voter(), poll, poll_key: id(9), voter: id(2) };
    let r = ctx.register_voter(0, &RegisterVoterBumps { voter_account: 1 });
    assert_eq!(r, Err(Error::Register(RegisterError::InvalidCredits)));
    assert!(ctx.voter_account.votes_cast.is_empty());
    assert_eq!(ctx.voter_account.voter, id(0));
}

#[test]
fn register_voter_rejects_a_closed_poll() {
    let poll = new_poll(id(1), "T", "D", 2);
    let mut close = ClosePoll { poll, authority: id(1) };
    assert_eq!(close.close_poll(), Ok(vec![0, 0]));
    let mut ctx = RegisterVoter {
        voter_account: blank_voter(),
        poll: close.poll,
        poll_key: id(9),
        voter: id(2),
    };
    // A closed poll is reported before the credits are looked at.
    let r = ctx.register_voter(0, &RegisterVoterBumps { voter_account: 1 });
    assert_eq!(r, Err(Error::Register(RegisterError::PollNotActive)));
    let r = ctx.register_voter(100, &RegisterVoterBumps { voter_account: 1 });
    assert_eq!(r, Err(Error::Register(RegisterError::PollNotActive)));
    assert_eq!(ctx.voter_account.total_credits, 0);
}

#[test]
fn register_voter_has_no_upper_bound_on_credits() {
    let poll = new_poll(id(1), "T", "D", 1);
    let (_, voter) = new_voter(poll, id(9), id(2), u64::MAX);
    assert_eq!(voter.credits_remaining, u64::MAX);
    assert_eq!(voter.total_credits, u64::MAX);
}

fn setup(credits: u64) -> CastVote {
    let poll = new_poll(id(1), "T", "D", 2);
    let (poll, voter_account) = new_voter(poll, id(9), id(2), credits);
    CastVote { voter_account, poll, voter: id(2) }
}

#[test]
fn cast_vote_charges_the_square_of_the_first_votes() {
    let mut ctx = setup(100);
    let r = ctx.cast_vote(0, 5);
    assert_eq!(r, Ok(VoteReceipt { cost: 25, credits_remaining: 75 }));
    assert_eq!(ctx.voter_account.credits_remaining, 75);
    assert_eq!(ctx.voter_account.total_credits, 100);
    assert_eq!(ctx.voter_account.votes_cast, vec![5, 0]);
    assert_eq!(ctx.poll.votes, vec![5, 0]);
}

#[test]
fn cast_vote_charges_the_difference_of_squares_afterwards() {
    let mut ctx = setup(100);
    assert_eq!(ctx.cast_vote(0, 5), Ok(VoteReceipt { cost: 25, credits_remaining: 75 }));
    let r = ctx.cast_vote(0, 3);
    assert_eq!(r, Ok(VoteReceipt { cost: 39, credits_remaining: 36 }));
    assert_eq!(ctx.voter_account.credits_remaining, 36);
    assert_eq!(ctx.voter_account.votes_cast, vec![8, 0]);
    assert_eq!(ctx.poll.votes, vec![8, 0]);
}

#[test]
fn cast_vote_rejects_a_cost_above_the_remaining_credits() {
    let mut ctx = setup(100);
    assert_eq!(ctx.cast_vote(0, 8), Ok(VoteReceipt { cost: 64, credits_remaining: 36 }));
    // From 8 votes to 10 costs 100 - 64 = 36: exactly affordable. To 11 costs 57.
    let r = ctx.cast_vote(0, 3);
    assert_eq!(r, Err(Error::Vote(VoteError::InsufficientCredits)));
    assert_eq!(ctx.voter_account.credits_remaining, 36);
    assert_eq!(ctx.voter_account.votes_cast, vec![8, 0]);
    assert_eq!(ctx.poll.votes, vec![8, 0]);
}

#[test]
fn cast_vote_with_36_credits_cannot_pay_39() {
    let poll = new_poll(id(1), "T", "D", 2);
    let mut ctx = CastVote {
        voter_account: Voter {
            poll: id(9),
            voter: id(2),
            credits_remaining: 36,
            total_credits: 61,
            votes_cast: vec![5, 0],
            bump: 0,
        },
        poll,
        voter: id(2),
    };
    let r = ctx.cast_vote(0, 3);
    assert_eq!(r, Err(Error::Vote(VoteError::InsufficientCredits)));
    assert_eq!(ctx.voter_account.credits_remaining, 36);
    assert_eq!(ctx.voter_account.total_credits, 61);
    assert_eq!(ctx.voter_account.votes_cast, vec![5, 0]);
    assert_eq!(ctx.poll.votes, vec![0, 0]);
    assert!(ctx.poll.is_active);
}

#[test]
fn cast_vote_may_spend_the_last_credit() {
    let mut ctx = setup(100);
    assert_eq!(ctx.cast_vote(1, 10), Ok(VoteReceipt { cost: 100, credits_remaining: 0 }));
    assert_eq!(ctx.voter_account.votes_cast, vec![0, 10]);
    assert_eq!(ctx.poll.votes, vec![0, 10]);
    assert_eq!(ctx.cast_vote(0, 1), Err(Error::Vote(VoteError::InsufficientCredits)));
}

#[test]
fn cast_vote_prices_each_option_on_its_own() {
    let mut ctx = setup(100);
    assert_eq!(ctx.cast_vote(0, 5), Ok(VoteReceipt { cost: 25, credits_remaining: 75 }));
    assert_eq!(ctx.cast_vote(1, 5), Ok(VoteReceipt { cost: 25, credits_remaining: 50 }));
    assert_eq!(ctx.voter_account.votes_cast, vec![5, 5]);
    assert_eq!(ctx.poll.votes, vec![5, 5]);
}

#[test]
fn cast_vote_rejects_zero_votes() {
    let mut ctx = setup(100);
    assert_eq!(ctx.cast_vote(0, 0), Err(Error::Vote(VoteError::InvalidVoteCount)));
    assert_eq!(ctx.voter_account.credits_remaining, 100);
    assert_eq!(ctx.poll.votes, vec![0, 0]);
}

#[test]
fn cast_vote_rejects_the_option_count_as_an_index() {
    let mut ctx = setup(100);
    assert_eq!(ctx.cast_vote(2, 1), Err(Error::Vote(VoteError::InvalidOption)));
    assert_eq!(ctx.cast_vote(255, 1), Err(Error::Vote(VoteError::InvalidOption)));
    assert_eq!(ctx.cast_vote(1, 1), Ok(VoteReceipt { cost: 1, credits_remaining: 99 }));
}

#[test]
fn cast_vote_rejects_another_caller() {
    let mut ctx = setup(100);
    ctx.voter = id(3);
    assert_eq!(ctx.cast_vote(0, 1), Err(Error::Vote(VoteError::UnauthorizedVoter)));
    assert_eq!(ctx.voter_account.credits_remaining, 100);
    assert_eq!(ctx.voter_account.votes_cast, vec![0, 0]);
}

#[test]
fn cast_vote_tells_identities_apart_by_any_byte() {
    let mut ctx = setup(100);
    let mut bytes = [2u8; 32];
    bytes[31] = 3;
    ctx.voter = Identity::new(bytes);
    assert_eq!(ctx.cast_vote(0, 1), Err(Error::Vote(VoteError::UnauthorizedVoter)));
    let mut bytes = [2u8; 32];
    bytes[0] = 3;
    ctx.voter = Identity::new(bytes);
    assert_eq!(ctx.cast_vote(0, 1), Err(Error::Vote(VoteError::UnauthorizedVoter)));
}

#[test]
fn cast_vote_checks_in_order() {
    let mut ctx = setup(100);
    ctx.voter = id(3);
    // Option, then vote count, then caller.
    assert_eq!(ctx.cast_vote(2, 0), Err(Error::Vote(VoteError::InvalidOption)));
    assert_eq!(ctx.cast_vote(0, 0), Err(Error::Vote(VoteError::InvalidVoteCount)));
    assert_eq!(ctx.cast_vote(0, 1), Err(Error::Vote(VoteError::UnauthorizedVoter)));
    ctx.poll.is_active = false;
    assert_eq!(ctx.cast_vote(2, 0), Err(Error::Vote(VoteError::PollNotActive)));
}

#[test]
fn cast_vote_reports_a_cost_that_does_not_fit() {
    let mut ctx = setup(u64::MAX);
    // (2^32)^2 does not fit in 64 bits.
    let r = ctx.cast_vote(0, 1 << 32);
    assert_eq!(r, Err(Error::Cost(ErrorCode::Overflow)));
    assert_eq!(ctx.cast_vote(0, u64::MAX), Err(Error::Cost(ErrorCode::Overflow)));
    assert_eq!(ctx.voter_account.credits_remaining, u64::MAX);
    assert_eq!(ctx.voter_account.votes_cast, vec![0, 0]);
    assert_eq!(ctx.poll.votes, vec![0, 0]);
    // The largest square that fits.
    let r = ctx.cast_vote(0, (1 << 32) - 1);
    assert_eq!(
        r,
        Ok(VoteReceipt { cost: 18446744065119617025, credits_remaining: 8589934590 })
    );
}

#[test]
fn cast_vote_reports_a_poll_total_that_does_not_fit() {
    let mut ctx = setup(100);
    ctx.poll.votes[0] = u64::MAX - 4;
    let r = ctx.cast_vote(0, 5);
    assert_eq!(r, Err(Error::Vote(VoteError::Overflow)));
    assert_eq!(ctx.voter_account.credits_remaining, 100);
    assert_eq!(ctx.voter_account.votes_cast, vec![0, 0]);
    assert_eq!(ctx.poll.votes, vec![u64::MAX - 4, 0]);
    assert_eq!(ctx.cast_vote(0, 4), Ok(VoteReceipt { cost: 16, credits_remaining: 84 }));
    assert_eq!(ctx.poll.votes, vec![u64::MAX, 0]);
}

#[test]
fn close_poll_is_final() {
    let poll = new_poll(id(1), "T", "D", 2);
    let (poll, voter_account) = new_voter(poll, id(9), id(2), 100);
    let mut cast = CastVote { voter_account, poll, voter: id(2) };
    assert_eq!(cast.cast_vote(1, 3), Ok(VoteReceipt { cost: 9, credits_remaining: 91 }));

    let mut close = ClosePoll { poll: cast.poll, authority: id(1) };
    assert_eq!(close.close_poll(), Ok(vec![0, 3]));
    assert!(!close.poll.is_active);
    assert_eq!(close.poll.votes, vec![0, 3]);
    assert_eq!(close.poll.title, "T");
    assert_eq!(close.close_poll(), Err(Error::Close(CloseError::PollAlreadyClosed)));
    assert!(!close.poll.is_active);

    let mut cast = CastVote { voter_account: cast.voter_account, poll: close.poll, voter: id(2) };
    assert_eq!(cast.cast_vote(1, 1), Err(Error::Vote(VoteError::PollNotActive)));
    assert_eq!(cast.voter_account.credits_remaining, 91);
    assert_eq!(cast.poll.votes, vec![0, 3]);
}

#[test]
fn close_poll_is_for_the_authority_only() {
    let poll = new_poll(id(1), "T", "D", 2);
    let mut close = ClosePoll { poll, authority: id(2) };
    assert_eq!(close.close_poll(), Err(Error::Access(AccessError::AuthorityMismatch)));
    assert!(close.poll.is_active);
    close.authority = id(1);
    assert_eq!(close.close_poll(), Ok(vec![0, 0]));
    // Once closed, a stranger is still told that the poll is not theirs.
    close.authority = id(2);
    assert_eq!(close.close_poll(), Err(Error::Access(AccessError::AuthorityMismatch)));
}

#[test]
fn defaults_are_blank_entries() {
    let poll = Poll::default();
    assert_eq!(poll.authority, Identity::new([0; 32]));
    assert_eq!(poll.title, "");
    assert_eq!(poll.description, "");
    assert_eq!(poll.option_count, 0);
    assert!(poll.votes.is_empty());
    assert!(!poll.is_active);
    let voter = Voter::default();
    assert_eq!(voter.total_credits, 0);
    assert_eq!(voter.credits_remaining, 0);
    assert!(voter.votes_cast.is_empty());
    assert_eq!(Identity::default().to_bytes(), [0u8; 32]);
}

#[test]
fn identity_is_its_bytes() {
    let mut bytes = [0u8; 32];
    for (i, b) in bytes.iter_mut().enumerate() {
        *b = i as u8;
    }
    let a = Identity::new(bytes);
    assert_eq!(a.to_bytes(), bytes);
    assert_eq!(a, Identity::new(bytes));
    for i in 0..32 {
        let mut other = bytes;
        other[i] ^= 0x80;
        assert_ne!(a, Identity::new(other));
    }
}

#[test]
fn casts_keep_the_accounts_balanced() {
    let mut ctx = setup(1000);
    let ballots: [(u8, u64); 8] =
        [(0, 7), (1, 3), (0, 2), (1, 30), (2, 1), (0, 0), (1, 11), (0, 20)];
    for (option, votes) in ballots {
        let _ = ctx.cast_vote(option, votes);
        let spent: u64 = ctx.voter_account.votes_cast.iter().map(|n| n * n).sum();
        assert_eq!(spent, ctx.voter_account.total_credits - ctx.voter_account.credits_remaining);
        assert!(spent <= ctx.voter_account.total_credits);
        assert_eq!(ctx.poll.votes, ctx.voter_account.votes_cast);
    }
    assert_eq!(ctx.voter_account.votes_cast, vec![9, 14]);
    assert_eq!(ctx.voter_account.credits_remaining, 1000 - 81 - 196);
}
