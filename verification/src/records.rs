//! The two record kinds and their exact storage footprints.
//!
//! A `Poll` holds an immutable question and option list plus the mutable
//! tallies; a `VoterRecord` proves, by existing at its derived address, that
//! its voter has already voted on its poll.  `Poll::space` computes the exact
//! byte footprint a poll record needs before any storage is allocated.

use vstd::prelude::*;

use crate::address::views_of;
use crate::address::Identity;

verus! {

/// Whether a question is acceptable: 1 to 200 bytes.
pub open spec fn valid_question(q: Seq<u8>) -> bool {
    1 <= q.len() <= 200
}

/// Whether the number of options is acceptable: 2 to 10.
pub open spec fn valid_option_count(opts: Seq<Seq<u8>>) -> bool {
    2 <= opts.len() <= 10
}

/// Whether every option text is acceptable: 1 to 50 bytes each.
pub open spec fn valid_option_texts(opts: Seq<Seq<u8>>) -> bool {
    forall|i: int| 0 <= i < opts.len() ==> 1 <= (#[trigger] opts[i]).len() <= 50
}

/// Whether an option list is acceptable in both count and texts.
pub open spec fn valid_options(opts: Seq<Seq<u8>>) -> bool {
    valid_option_count(opts) && valid_option_texts(opts)
}

/// The sum of a sequence of tallies.
pub open spec fn sum_votes(vs: Seq<u64>) -> int
    decreases vs.len(),
{
    if vs.len() == 0 {
        0
    } else {
        vs[0] + sum_votes(vs.drop_first())
    }
}

pub proof fn lemma_sum_votes_nonneg(vs: Seq<u64>)
    ensures
        sum_votes(vs) >= 0,
    decreases vs.len(),
{
    if vs.len() > 0 {
        lemma_sum_votes_nonneg(vs.drop_first());
    }
}

pub proof fn lemma_sum_votes_push(vs: Seq<u64>, v: u64)
    ensures
        sum_votes(vs.push(v)) == sum_votes(vs) + v,
    decreases vs.len(),
{
    if vs.len() == 0 {
        assert(vs.push(v)[0] == v);
        assert(vs.push(v).drop_first() =~= Seq::<u64>::empty());
        assert(sum_votes(Seq::<u64>::empty()) == 0);
    } else {
        assert(vs.push(v)[0] == vs[0]);
        assert(vs.push(v).drop_first() =~= vs.drop_first().push(v));
        lemma_sum_votes_push(vs.drop_first(), v);
    }
}

pub proof fn lemma_sum_votes_update(vs: Seq<u64>, i: int, v: u64)
    requires
        0 <= i < vs.len(),
    ensures
        sum_votes(vs.update(i, v)) == sum_votes(vs) - vs[i] + v,
    decreases vs.len(),
{
    if i == 0 {
        assert(vs.update(0, v).drop_first() =~= vs.drop_first());
    } else {
        assert(vs.update(i, v).drop_first() =~= vs.drop_first().update(i - 1, v));
        lemma_sum_votes_update(vs.drop_first(), i - 1, v);
    }
}

/// Every single tally is at most the sum of all tallies.
pub proof fn lemma_vote_le_sum(vs: Seq<u64>, i: int)
    requires
        0 <= i < vs.len(),
    ensures
        vs[i] <= sum_votes(vs),
    decreases vs.len(),
{
    lemma_sum_votes_nonneg(vs.drop_first());
    if i > 0 {
        lemma_vote_le_sum(vs.drop_first(), i - 1);
    }
}

/// A poll record.  The question, options, creator, identifier and creation
/// time are immutable after creation; only the tallies change, and only by
/// exactly one vote at a time.
#[derive(Debug)]
pub struct Poll {
    /// Caller-chosen identifier, unique per creator.
    pub poll_id: u64,
    /// The owning principal.
    pub creator: Identity,
    /// The question text, 1 to 200 bytes.
    pub question: Vec<u8>,
    /// The option texts, 2 to 10 of them, each 1 to 50 bytes.
    pub options: Vec<Vec<u8>>,
    /// Per-option tallies, index-aligned with `options`.
    pub votes: Vec<u64>,
    /// Always the sum of `votes`.
    pub total_votes: u64,
    /// Set once at creation.
    pub created_at: i64,
    /// The disambiguator the address derivation settled on.
    pub bump: u8,
}

/// The encoded length of an option list: a length prefix plus the text for
/// each option.
pub open spec fn options_encoded_len(opts: Seq<Seq<u8>>) -> int
    decreases opts.len(),
{
    if opts.len() == 0 {
        0
    } else {
        (4 + opts[0].len()) + options_encoded_len(opts.drop_first())
    }
}

pub proof fn lemma_options_encoded_len_push(opts: Seq<Seq<u8>>, c: Seq<u8>)
    ensures
        options_encoded_len(opts.push(c)) == options_encoded_len(opts) + 4 + c.len(),
    decreases opts.len(),
{
    if opts.len() == 0 {
        assert(opts.push(c)[0] == c);
        assert(opts.push(c).drop_first() =~= Seq::<Seq<u8>>::empty());
        assert(options_encoded_len(Seq::<Seq<u8>>::empty()) == 0);
    } else {
        assert(opts.push(c)[0] == opts[0]);
        assert(opts.push(c).drop_first() =~= opts.drop_first().push(c));
        lemma_options_encoded_len_push(opts.drop_first(), c);
    }
}

pub proof fn lemma_options_encoded_len_update(opts: Seq<Seq<u8>>, j: int, c: Seq<u8>)
    requires
        0 <= j < opts.len(),
    ensures
        options_encoded_len(opts.update(j, c)) == options_encoded_len(opts) - opts[j].len()
            + c.len(),
    decreases opts.len(),
{
    if j == 0 {
        assert(opts.update(0, c).drop_first() =~= opts.drop_first());
    } else {
        assert(opts.update(j, c).drop_first() =~= opts.drop_first().update(j - 1, c));
        lemma_options_encoded_len_update(opts.drop_first(), j - 1, c);
    }
}

/// The exact byte footprint of a persisted poll record: the fixed header
/// fields, a length prefix per variable-length field, the option texts, one
/// eight-byte tally slot per option, and a fixed safety margin.
pub open spec fn space_spec(question: Seq<u8>, opts: Seq<Seq<u8>>) -> int {
    8  // record kind discriminator
     + 8  // poll_id
     + 32  // creator
     + (4 + question.len())  // question, length-prefixed
     + (4 + options_encoded_len(opts))  // options, each length-prefixed
     + (4 + 8 * opts.len())  // tallies, one slot per option
     + 8  // total_votes
     + 8  // created_at
     + 1  // bump
     + 100  // safety margin for future field growth
}

impl Poll {
    /// The exact byte footprint needed to persist a poll with this question
    /// and option list, computed before any storage is allocated.
    pub fn space(question: &Vec<u8>, options: &Vec<Vec<u8>>) -> (r: usize)
        requires
            valid_question(question@),
            valid_options(views_of(options@)),
        ensures
            r == space_spec(question@, views_of(options@)),
    {
        let ghost all = views_of(options@);
        let mut opts_bytes: usize = 0;
        let mut i: usize = 0;
        while i < options.len()
            invariant
                valid_options(all),
                all == views_of(options@),
                i <= options@.len(),
                opts_bytes == options_encoded_len(all.subrange(0, i as int)),
                opts_bytes <= 54 * i,
            decreases options@.len() - i,
        {
            let ghost done = all.subrange(0, i as int);
            assert(all[i as int].len() <= 50);
            opts_bytes = opts_bytes + 4 + options[i].len();
            proof {
                lemma_options_encoded_len_push(done, all[i as int]);
                assert(all.subrange(0, i as int + 1) =~= done.push(all[i as int]));
            }
            i = i + 1;
        }
        assert(all.subrange(0, options@.len() as int) =~= all);
        8 + 8 + 32 + (4 + question.len()) + (4 + opts_bytes) + (4 + 8 * options.len()) + 8 + 8 + 1
            + 100
    }
}

/// Changing one option's text changes the computed footprint by exactly the
/// difference in byte length; nothing else about the record moves.
pub proof fn lemma_space_option_delta(question: Seq<u8>, opts: Seq<Seq<u8>>, j: int, c: Seq<u8>)
    requires
        0 <= j < opts.len(),
    ensures
        space_spec(question, opts.update(j, c)) == space_spec(question, opts) + c.len()
            - opts[j].len(),
{
    lemma_options_encoded_len_update(opts, j, c);
}

/// A vote record.  Fully immutable once created; its existence at its
/// derived address is the proof that its voter has voted on its poll.
#[derive(Debug)]
pub struct VoterRecord {
    /// The voting principal.
    pub voter: Identity,
    /// The identifier of the poll voted on.
    pub poll_id: u64,
    /// The option index the voter chose.
    pub chosen_option: u8,
    /// Set once at creation.
    pub voted_at: i64,
    /// The disambiguator the address derivation settled on.
    pub bump: u8,
}

impl VoterRecord {
    /// The fixed byte footprint of a persisted vote record: discriminator,
    /// voter, poll identifier, chosen option, timestamp and bump.
    pub const SPACE: usize = 8 + 32 + 8 + 1 + 8 + 1;
}

} // verus!
