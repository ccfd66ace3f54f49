//! The poll entry: the fixed definition of a poll and its running totals.

use vstd::prelude::*;
use crate::identity::Identity;

verus! {

/// Length of a text in bytes of its UTF-8 form, the unit of the length bounds.
pub open spec fn text_len(text: Seq<char>) -> nat {
    vstd::utf8::encode_utf8(text).len()
}

/// The length of `text` in bytes.
pub fn byte_len(text: &String) -> (n: usize)
    ensures
        n == text_len(text@),
{
    broadcast use vstd::slice::axiom_spec_len;

    text.as_str().as_bytes().len()
}

/// A poll with a fixed number of options and one running total per option.
#[derive(Clone, Debug, PartialEq, Eq)]
pub struct Poll {
    /// The creator, the only one who may close the poll.
    pub authority: Identity,
    /// Title, at most [`Poll::MAX_TITLE_LEN`] bytes.
    pub title: String,
    /// Description, at most [`Poll::MAX_DESC_LEN`] bytes.
    pub description: String,
    /// Number of options, from 1 to [`Poll::MAX_OPTIONS`].
    pub option_count: u8,
    /// Votes received, one total per option.
    pub votes: Vec<u64>,
    /// Whether the poll still takes registrations and votes.
    pub is_active: bool,
    /// Address bump of the stored entry.
    pub bump: u8,
}

/// What a poll holds, as mathematical values: the fields of [`Poll`], with
/// the texts as sequences of characters and the totals as a sequence.
pub struct PollView {
    pub authority: Identity,
    pub title: Seq<char>,
    pub description: Seq<char>,
    pub option_count: u8,
    pub votes: Seq<u64>,
    pub is_active: bool,
    pub bump: u8,
}

impl PollView {
    /// The poll that creation yields: no votes yet, and open.
    pub open spec fn created(
        authority: Identity,
        title: Seq<char>,
        description: Seq<char>,
        option_count: u8,
        bump: u8,
    ) -> PollView {
        PollView {
            authority,
            title,
            description,
            option_count,
            votes: Seq::new(option_count as nat, |i: int| 0u64),
            is_active: true,
            bump,
        }
    }

    /// The poll after `votes` more votes on option `option_index`.
    pub open spec fn after_vote(self, option_index: int, votes: u64) -> PollView {
        PollView {
            votes: self.votes.update(option_index, (self.votes[option_index] + votes) as u64),
            ..self
        }
    }

    /// The poll after it has been closed.
    pub open spec fn closed(self) -> PollView {
        PollView { is_active: false, ..self }
    }

    /// See [`Poll::wf`].
    pub open spec fn wf(self) -> bool {
        &&& text_len(self.title) <= Poll::MAX_TITLE_LEN
        &&& text_len(self.description) <= Poll::MAX_DESC_LEN
        &&& 1 <= self.option_count <= Poll::MAX_OPTIONS
        &&& self.votes.len() == self.option_count
    }
}

impl View for Poll {
    type V = PollView;

    open spec fn view(&self) -> PollView {
        PollView {
            authority: self.authority,
            title: self.title@,
            description: self.description@,
            option_count: self.option_count,
            votes: self.votes@,
            is_active: self.is_active,
            bump: self.bump,
        }
    }
}

impl Default for Poll {
    /// An entry that holds no poll yet: empty texts, no options, not open.
    fn default() -> (poll: Poll)
        ensures
            poll.authority@ == Seq::new(32, |i: int| 0u8),
            poll.title@.len() == 0,
            poll.description@.len() == 0,
            poll.option_count == 0,
            poll.votes@.len() == 0,
            !poll.is_active,
            poll.bump == 0,
    {
        Poll {
            authority: Identity::default(),
            title: String::new(),
            description: String::new(),
            option_count: 0,
            votes: Vec::new(),
            is_active: false,
            bump: 0,
        }
    }
}

impl Poll {
    /// Longest title, in bytes.
    pub const MAX_TITLE_LEN: usize = 100;

    /// Longest description, in bytes.
    pub const MAX_DESC_LEN: usize = 500;

    /// Largest number of options.
    pub const MAX_OPTIONS: usize = 10;

    /// The invariant of a created poll: the texts are within their bounds, the
    /// option count is in range, and there is one total per option.
    pub open spec fn wf(&self) -> bool {
        self@.wf()
    }

    /// Bytes that a stored poll with `option_count` options takes: an 8-byte
    /// tag, the authority, the two length-prefixed texts at their longest, the
    /// option count, the length-prefixed totals, the active flag and the bump.
    pub fn space(option_count: u8) -> (bytes: usize)
        ensures
            bytes == 655 + 8 * option_count,
    {
        let count: usize = option_count as usize;
        8 + 32 + 4 + Self::MAX_TITLE_LEN + 4 + Self::MAX_DESC_LEN + 1 + 4 + (8 * count) + 1 + 1
    }
}

} // verus!
