//! The record store and its two state transitions.
//!
//! A record address is either unoccupied or holds exactly one record.
//! `create_poll` and `vote` are the only transitions: each validates its
//! input, derives the record's address, enforces "an occupied address is
//! never created again", and applies its whole effect or none of it.  The
//! well-formedness predicate `store_wf` ties every poll's running total to
//! both the sum of its per-option tallies and the number of vote records
//! that exist for it.

use vstd::prelude::*;

use crate::address::copy_bytes;
use crate::address::derive_address;
use crate::address::encode_key;
use crate::address::find_bump_spec;
use crate::address::le8;
use crate::address::poll_namespace;
use crate::address::poll_ns;
use crate::address::u64_le_bytes;
use crate::address::views_of;
use crate::address::vote_namespace;
use crate::address::vote_ns;
use crate::address::Address;
use crate::address::Identity;
use crate::errors::PollError;
use crate::records::sum_votes;
use crate::records::valid_option_count;
use crate::records::valid_option_texts;
use crate::records::valid_options;
use crate::records::valid_question;
use crate::records::Poll;
use crate::records::VoterRecord;

verus! {

/// A poll record together with the address it lives at.
#[derive(Debug)]
pub struct PollEntry {
    pub address: Address,
    pub poll: Poll,
}

/// A vote record together with the address it lives at and the address of
/// the poll it belongs to.
#[derive(Debug)]
pub struct VoteEntry {
    pub address: Address,
    pub poll_address: Address,
    pub record: VoterRecord,
}

/// The record store: every existing record, each at its derived address.
#[derive(Debug)]
pub struct Store {
    pub polls: Vec<PollEntry>,
    pub votes: Vec<VoteEntry>,
}

/// The caller context for creating a poll: the signing creator.
#[derive(Debug)]
pub struct CreatePoll {
    pub creator: Identity,
}

/// The caller context for casting a vote: the poll's address and the
/// signing voter.
#[derive(Debug)]
pub struct Vote {
    pub poll_address: Address,
    pub voter: Identity,
}

/// What a successful vote reports back: the chosen option and the poll's
/// new running total.
#[derive(Clone, Copy, Debug, PartialEq, Eq, Structural)]
pub struct VoteReceipt {
    pub option_index: u8,
    pub total_votes: u64,
}

/// The address key of the poll record for `(creator, poll_id)`.
pub open spec fn poll_addr_key(creator: Seq<u8>, poll_id: u64, bump: u8) -> Seq<u8> {
    encode_key(poll_ns(), seq![creator, le8(poll_id as nat)], bump)
}

/// The address key of the vote record for `(poll_address, voter)`.
pub open spec fn vote_addr_key(poll_address: Seq<u8>, voter: Seq<u8>, bump: u8) -> Seq<u8> {
    encode_key(vote_ns(), seq![poll_address, voter], bump)
}

/// Whether some poll record lives at `addr`.
pub open spec fn occupied_poll(s: Store, addr: Seq<u8>) -> bool {
    exists|i: int| 0 <= i < s.polls@.len() && (#[trigger] s.polls@[i]).address@ == addr
}

/// Whether some vote record lives at `addr`.
pub open spec fn occupied_vote(s: Store, addr: Seq<u8>) -> bool {
    exists|i: int| 0 <= i < s.votes@.len() && (#[trigger] s.votes@[i]).address@ == addr
}

/// The index of the poll record at `addr`; meaningful when `occupied_poll`
/// holds (and unique once the store is well formed).
pub open spec fn poll_index_of(s: Store, addr: Seq<u8>) -> int {
    choose|i: int| 0 <= i < s.polls@.len() && (#[trigger] s.polls@[i]).address@ == addr
}

/// The poll record at `addr`; meaningful when `occupied_poll` holds.
pub open spec fn poll_at(s: Store, addr: Seq<u8>) -> Poll {
    s.polls@[poll_index_of(s, addr)].poll
}

/// How many vote records belong to the poll at `addr`.
pub open spec fn count_votes_for(votes: Seq<VoteEntry>, addr: Seq<u8>) -> int
    decreases votes.len(),
{
    if votes.len() == 0 {
        0
    } else {
        (if votes[0].poll_address@ == addr {
            1int
        } else {
            0int
        }) + count_votes_for(votes.drop_first(), addr)
    }
}

pub proof fn lemma_count_votes_le_len(votes: Seq<VoteEntry>, addr: Seq<u8>)
    ensures
        0 <= count_votes_for(votes, addr) <= votes.len(),
    decreases votes.len(),
{
    if votes.len() > 0 {
        lemma_count_votes_le_len(votes.drop_first(), addr);
    }
}

pub proof fn lemma_count_votes_push(votes: Seq<VoteEntry>, e: VoteEntry, addr: Seq<u8>)
    ensures
        count_votes_for(votes.push(e), addr) == count_votes_for(votes, addr) + (if e.poll_address@
            == addr {
            1int
        } else {
            0int
        }),
    decreases votes.len(),
{
    if votes.len() == 0 {
        assert(votes.push(e)[0] == e);
        assert(votes.push(e).drop_first() =~= Seq::<VoteEntry>::empty());
        assert(count_votes_for(Seq::<VoteEntry>::empty(), addr) == 0);
    } else {
        assert(votes.push(e)[0] == votes[0]);
        assert(votes.push(e).drop_first() =~= votes.drop_first().push(e));
        lemma_count_votes_push(votes.drop_first(), e, addr);
    }
}

pub proof fn lemma_count_votes_absent(votes: Seq<VoteEntry>, addr: Seq<u8>)
    requires
        forall|i: int| 0 <= i < votes.len() ==> (#[trigger] votes[i]).poll_address@ != addr,
    ensures
        count_votes_for(votes, addr) == 0,
    decreases votes.len(),
{
    if votes.len() > 0 {
        assert forall|i: int| 0 <= i < votes.drop_first().len() implies (#[trigger] votes.drop_first()[i]).poll_address@
            != addr by {
            assert(votes.drop_first()[i] == votes[i + 1]);
        }
        lemma_count_votes_absent(votes.drop_first(), addr);
    }
}

/// Whether one poll entry is internally consistent: validated texts, an
/// index-aligned tally per option, a total equal to the sum of the tallies,
/// and the address its key components re-derive.
pub open spec fn poll_entry_wf(e: PollEntry) -> bool {
    &&& valid_question(e.poll.question@)
    &&& valid_options(views_of(e.poll.options@))
    &&& e.poll.votes@.len() == e.poll.options@.len()
    &&& e.poll.total_votes == sum_votes(e.poll.votes@)
    &&& e.address@ == poll_addr_key(e.poll.creator@, e.poll.poll_id, e.poll.bump)
}

/// Whether one vote entry sits at the address its key components re-derive.
pub open spec fn vote_entry_wf(e: VoteEntry) -> bool {
    e.address@ == vote_addr_key(e.poll_address@, e.record.voter@, e.record.bump)
}

/// Well-formedness of the whole store: every address holds at most one
/// record, every record is internally consistent, every vote record points
/// at an existing poll, and every poll's total equals the number of vote
/// records that exist for it.
pub open spec fn store_wf(s: Store) -> bool {
    &&& forall|i: int, j: int|
        0 <= i < j < s.polls@.len() ==> (#[trigger] s.polls@[i]).address@ != (
        #[trigger] s.polls@[j]).address@
    &&& forall|i: int, j: int|
        0 <= i < j < s.votes@.len() ==> (#[trigger] s.votes@[i]).address@ != (
        #[trigger] s.votes@[j]).address@
    &&& forall|i: int| 0 <= i < s.polls@.len() ==> poll_entry_wf(#[trigger] s.polls@[i])
    &&& forall|i: int| 0 <= i < s.votes@.len() ==> vote_entry_wf(#[trigger] s.votes@[i])
    &&& forall|i: int|
        0 <= i < s.votes@.len() ==> occupied_poll(s, (#[trigger] s.votes@[i]).poll_address@)
    &&& forall|i: int|
        0 <= i < s.polls@.len() ==> (#[trigger] s.polls@[i]).poll.total_votes == count_votes_for(
            s.votes@,
            s.polls@[i].address@,
        )
}

impl Store {
    /// An empty store: no address is occupied.
    pub fn new() -> (s: Store)
        ensures
            store_wf(s),
            s.polls@.len() == 0,
            s.votes@.len() == 0,
    {
        Store { polls: Vec::new(), votes: Vec::new() }
    }
}

/// The index of the entry at `addr` among `polls`, if any.
fn find_poll_index(polls: &Vec<PollEntry>, addr: &Address) -> (r: Option<usize>)
    ensures
        match r {
            Some(i) => i < polls@.len() && polls@[i as int].address@ == addr@,
            None => forall|i: int| 0 <= i < polls@.len() ==> (#[trigger] polls@[i]).address@
                != addr@,
        },
{
    let mut i: usize = 0;
    while i < polls.len()
        invariant
            i <= polls@.len(),
            forall|j: int| 0 <= j < i ==> (#[trigger] polls@[j]).address@ != addr@,
        decreases polls@.len() - i,
    {
        if crate::address::bytes_eq(&polls[i].address.bytes, &addr.bytes) {
            return Some(i);
        }
        i = i + 1;
    }
    None
}

/// The index of the entry at `addr` among `votes`, if any.
fn find_vote_index(votes: &Vec<VoteEntry>, addr: &Address) -> (r: Option<usize>)
    ensures
        match r {
            Some(i) => i < votes@.len() && votes@[i as int].address@ == addr@,
            None => forall|i: int| 0 <= i < votes@.len() ==> (#[trigger] votes@[i]).address@
                != addr@,
        },
{
    let mut i: usize = 0;
    while i < votes.len()
        invariant
            i <= votes@.len(),
            forall|j: int| 0 <= j < i ==> (#[trigger] votes@[j]).address@ != addr@,
        decreases votes@.len() - i,
    {
        if crate::address::bytes_eq(&votes[i].address.bytes, &addr.bytes) {
            return Some(i);
        }
        i = i + 1;
    }
    None
}

/// Derives the address of the poll record for `(creator, poll_id)`.
pub fn derive_poll_address(creator: &Identity, poll_id: u64, usable: &Vec<bool>) -> (r: Result<
    (Address, u8),
    PollError,
>)
    requires
        usable@.len() == 256,
    ensures
        r is Ok <==> find_bump_spec(usable@) is Some,
        r is Err ==> r == Err::<(Address, u8), PollError>(PollError::AddressSpaceExhausted),
        r matches Ok((addr, bump)) ==> Some(bump) == find_bump_spec(usable@) && addr@
            == poll_addr_key(creator@, poll_id, bump),
{
    let mut comps: Vec<Vec<u8>> = Vec::new();
    comps.push(copy_bytes(&creator.bytes));
    comps.push(u64_le_bytes(poll_id));
    let ns = poll_namespace();
    proof {
        assert(views_of(comps@) =~= seq![creator@, le8(poll_id as nat)]);
    }
    derive_address(&ns, &comps, usable)
}

/// Derives the address of the vote record for `(poll_address, voter)`.
pub fn derive_vote_address(poll_address: &Address, voter: &Identity, usable: &Vec<bool>) -> (r:
    Result<(Address, u8), PollError>)
    requires
        usable@.len() == 256,
    ensures
        r is Ok <==> find_bump_spec(usable@) is Some,
        r is Err ==> r == Err::<(Address, u8), PollError>(PollError::AddressSpaceExhausted),
        r matches Ok((addr, bump)) ==> Some(bump) == find_bump_spec(usable@) && addr@
            == vote_addr_key(poll_address@, voter@, bump),
{
    let mut comps: Vec<Vec<u8>> = Vec::new();
    comps.push(copy_bytes(&poll_address.bytes));
    comps.push(copy_bytes(&voter.bytes));
    let ns = vote_namespace();
    proof {
        assert(views_of(comps@) =~= seq![poll_address@, voter@]);
    }
    derive_address(&ns, &comps, usable)
}

/// The outcome `create_poll` owes for given inputs and pre-state: the exact
/// error kind, or success.  Validation comes first, in a fixed order, then
/// the disambiguator search, then the occupancy check.
pub open spec fn create_poll_outcome(
    s: Store,
    creator: Seq<u8>,
    poll_id: u64,
    question: Seq<u8>,
    opts: Seq<Seq<u8>>,
    usable: Seq<bool>,
) -> Result<(), PollError> {
    if !valid_question(question) {
        Err(PollError::InvalidQuestion)
    } else if !valid_option_count(opts) {
        Err(PollError::InvalidOptions)
    } else if !valid_option_texts(opts) {
        Err(PollError::InvalidOptionText)
    } else {
        match find_bump_spec(usable) {
            None => Err(PollError::AddressSpaceExhausted),
            Some(b) => if occupied_poll(s, poll_addr_key(creator, poll_id, b)) {
                Err(PollError::AddressOccupied)
            } else {
                Ok(())
            },
        }
    }
}

/// Creates the poll record for `(ctx.creator, poll_id)` at its derived
/// address.
///
/// Validation precedes any mutation: on every error the store is unchanged
/// and the reported kind is exactly the one `create_poll_outcome` names.  On
/// success exactly one poll record is appended, at the derived address, with
/// every tally zero, a zero total, and the given creation time; the vote
/// records are untouched.
pub fn create_poll(
    store: &mut Store,
    ctx: CreatePoll,
    poll_id: u64,
    question: Vec<u8>,
    options: Vec<Vec<u8>>,
    now: i64,
    usable: &Vec<bool>,
) -> (r: Result<Address, PollError>)
    requires
        usable@.len() == 256,
        store_wf(*old(store)),
    ensures
        store_wf(*final(store)),
        ({
            let outcome = create_poll_outcome(
                *old(store),
                ctx.creator@,
                poll_id,
                question@,
                views_of(options@),
                usable@,
            );
            match outcome {
                Result::Err(e) => r == Err::<Address, PollError>(e) && *final(store) == *old(
                    store,
                ),
                Result::Ok(u) => match find_bump_spec(usable@) {
                    Option::Some(b) => ({
                        let key = poll_addr_key(ctx.creator@, poll_id, b);
                        let p = final(store).polls@.last();
                        &&& final(store).polls@.len() == old(store).polls@.len() + 1
                        &&& final(store).polls@.subrange(0, old(store).polls@.len() as int) == old(
                            store,
                        ).polls@
                        &&& final(store).votes@ == old(store).votes@
                        &&& p.address@ == key
                        &&& p.poll.poll_id == poll_id
                        &&& p.poll.creator@ == ctx.creator@
                        &&& p.poll.question@ == question@
                        &&& views_of(p.poll.options@) == views_of(options@)
                        &&& p.poll.votes@ == Seq::new(options@.len(), (|i: int| 0u64))
                        &&& p.poll.total_votes == 0
                        &&& p.poll.created_at == now
                        &&& p.poll.bump == b
                        &&& (match r {
                            Result::Ok(a) => a@ == key,
                            Result::Err(e) => false,
                        })
                    }),
                    Option::None => false,
                },
            }
        }),
{
    let ghost s0 = *old(store);
    let ghost qv = question@;
    let ghost ov = views_of(options@);
    let ghost cv = ctx.creator@;
    if question.len() < 1 || question.len() > 200 {
        return Err(PollError::InvalidQuestion);
    }
    if options.len() < 2 || options.len() > 10 {
        return Err(PollError::InvalidOptions);
    }
    let mut k: usize = 0;
    while k < options.len()
        invariant
            *store == *old(store),
            store_wf(*old(store)),
            valid_question(question@),
            valid_option_count(ov),
            ov == views_of(options@),
            cv == ctx.creator@,
            k <= options@.len(),
            forall|j: int| 0 <= j < k ==> 1 <= (#[trigger] ov[j]).len() <= 50,
        decreases options@.len() - k,
    {
        if options[k].len() < 1 || options[k].len() > 50 {
            assert(!(1 <= ov[k as int].len() <= 50));
            return Err(PollError::InvalidOptionText);
        }
        k = k + 1;
    }
    assert(valid_option_texts(ov));
    let (addr, b) = match derive_poll_address(&ctx.creator, poll_id, usable) {
        Ok(x) => x,
        Err(e) => {
            return Err(e);
        },
    };
    if let Some(_occ) = find_poll_index(&store.polls, &addr) {
        return Err(PollError::AddressOccupied);
    }
    assert(!occupied_poll(s0, poll_addr_key(cv, poll_id, b)));
    let n = options.len();
    let mut votes: Vec<u64> = Vec::new();
    let mut z: usize = 0;
    while z < n
        invariant
            *store == *old(store),
            z <= n,
            votes@.len() == z,
            forall|j: int| 0 <= j < z ==> (#[trigger] votes@[j]) == 0u64,
            sum_votes(votes@) == 0,
        decreases n - z,
    {
        proof {
            crate::records::lemma_sum_votes_push(votes@, 0u64);
        }
        votes.push(0);
        z = z + 1;
    }
    assert(votes@ =~= Seq::new(options@.len(), (|i: int| 0u64)));
    let key_copy = addr.duplicate();
    let poll = Poll {
        poll_id,
        creator: ctx.creator,
        question,
        options,
        votes,
        total_votes: 0,
        created_at: now,
        bump: b,
    };
    let entry = PollEntry { address: addr, poll };
    store.polls.push(entry);
    proof {
        let s1 = *store;
        let ghost e = entry;
        assert(s1.polls@ == s0.polls@.push(e));
        assert(s1.polls@.subrange(0, s0.polls@.len() as int) =~= s0.polls@);
        assert(s1.polls@.last() == e);
        // No address collides with the new entry's, so addresses stay unique.
        assert forall|i: int, j: int| 0 <= i < j < s1.polls@.len() implies (
        #[trigger] s1.polls@[i]).address@ != (#[trigger] s1.polls@[j]).address@ by {
            if j < s0.polls@.len() {
                assert(s1.polls@[i] == s0.polls@[i]);
                assert(s1.polls@[j] == s0.polls@[j]);
            } else {
                assert(s1.polls@[j] == e);
                assert(s1.polls@[i] == s0.polls@[i]);
            }
        }
        // Every poll entry, the new one included, is internally consistent.
        assert(poll_entry_wf(e));
        assert forall|i: int| 0 <= i < s1.polls@.len() implies poll_entry_wf(
            #[trigger] s1.polls@[i],
        ) by {
            if i < s0.polls@.len() {
                assert(s1.polls@[i] == s0.polls@[i]);
            }
        }
        // Vote entries are untouched and still point at existing polls.
        assert forall|i: int| 0 <= i < s1.votes@.len() implies occupied_poll(
            s1,
            (#[trigger] s1.votes@[i]).poll_address@,
        ) by {
            let a = s1.votes@[i].poll_address@;
            assert(occupied_poll(s0, a));
            let w = choose|w: int| 0 <= w < s0.polls@.len() && (#[trigger] s0.polls@[w]).address@
                == a;
            assert(s1.polls@[w] == s0.polls@[w]);
            assert((#[trigger] s1.polls@[w]).address@ == a);
        }
        // No vote record can belong to a poll that did not exist yet, so the
        // new poll's count is zero; the other counts are unchanged.
        assert forall|i: int| 0 <= i < s1.votes@.len() implies (#[trigger] s1.votes@[i]).poll_address@
            != e.address@ by {
            let a = s1.votes@[i].poll_address@;
            assert(occupied_poll(s0, a));
            let w = choose|w: int| 0 <= w < s0.polls@.len() && (#[trigger] s0.polls@[w]).address@
                == a;
        }
        lemma_count_votes_absent(s1.votes@, e.address@);
        assert forall|i: int| 0 <= i < s1.polls@.len() implies (#[trigger] s1.polls@[i]).poll.total_votes
            == count_votes_for(s1.votes@, s1.polls@[i].address@) by {
            if i < s0.polls@.len() {
                assert(s1.polls@[i] == s0.polls@[i]);
            } else {
                assert(s1.polls@[i] == e);
            }
        }
        assert(store_wf(s1));
    }
    Ok(key_copy)
}

/// The outcome `vote` owes for given inputs and pre-state: the exact error
/// kind, or success.  The poll must exist, the option index must be in
/// range, a disambiguator must be found, and the derived vote address must
/// be unoccupied — occupancy there is the sole enforcement of "one vote per
/// voter per poll".
pub open spec fn vote_outcome(
    s: Store,
    poll_address: Seq<u8>,
    voter: Seq<u8>,
    option_index: u8,
    usable: Seq<bool>,
) -> Result<(), PollError> {
    if !occupied_poll(s, poll_address) {
        Err(PollError::PollNotFound)
    } else if option_index >= poll_at(s, poll_address).options@.len() {
        Err(PollError::InvalidOptionIndex)
    } else {
        match find_bump_spec(usable) {
            None => Err(PollError::AddressSpaceExhausted),
            Some(b) => if occupied_vote(s, vote_addr_key(poll_address, voter, b)) {
                Err(PollError::AlreadyVoted)
            } else {
                Ok(())
            },
        }
    }
}

/// Casts `ctx.voter`'s single vote for `option_index` on the poll at
/// `ctx.poll_address`.
///
/// On every error the store is unchanged and the reported kind is exactly
/// the one `vote_outcome` names; a repeated cast surfaces as `AlreadyVoted`.
/// On success, atomically: the chosen tally and the running total each grow
/// by exactly one, and exactly one vote record is appended at its derived
/// address; nothing else moves.
pub fn vote(
    store: &mut Store,
    ctx: Vote,
    option_index: u8,
    now: i64,
    usable: &Vec<bool>,
) -> (r: Result<VoteReceipt, PollError>)
    requires
        usable@.len() == 256,
        store_wf(*old(store)),
        old(store).votes@.len() < u64::MAX,
    ensures
        store_wf(*final(store)),
        ({
            let outcome = vote_outcome(
                *old(store),
                ctx.poll_address@,
                ctx.voter@,
                option_index,
                usable@,
            );
            match outcome {
                Result::Err(e) => r == Err::<VoteReceipt, PollError>(e) && *final(store) == *old(
                    store,
                ),
                Result::Ok(u) => match find_bump_spec(usable@) {
                    Option::Some(b) => ({
                        let pi = poll_index_of(*old(store), ctx.poll_address@);
                        let oldp = old(store).polls@[pi].poll;
                        let newe = final(store).polls@[pi];
                        let v = final(store).votes@.last();
                        &&& r == Ok::<VoteReceipt, PollError>(
                            VoteReceipt {
                                option_index,
                                total_votes: (oldp.total_votes + 1) as u64,
                            },
                        )
                        &&& final(store).polls@.len() == old(store).polls@.len()
                        &&& forall|k: int|
                            0 <= k < old(store).polls@.len() && k != pi ==> final(store).polls@[k]
                                == old(store).polls@[k]
                        &&& newe.address@ == old(store).polls@[pi].address@
                        &&& newe.poll.poll_id == oldp.poll_id
                        &&& newe.poll.creator@ == oldp.creator@
                        &&& newe.poll.question@ == oldp.question@
                        &&& newe.poll.options@ == oldp.options@
                        &&& newe.poll.created_at == oldp.created_at
                        &&& newe.poll.bump == oldp.bump
                        &&& newe.poll.votes@ == oldp.votes@.update(
                            option_index as int,
                            (oldp.votes@[option_index as int] + 1) as u64,
                        )
                        &&& newe.poll.total_votes == oldp.total_votes + 1
                        &&& final(store).votes@ == old(store).votes@.push(v)
                        &&& v.address@ == vote_addr_key(ctx.poll_address@, ctx.voter@, b)
                        &&& v.poll_address@ == ctx.poll_address@
                        &&& v.record.voter@ == ctx.voter@
                        &&& v.record.poll_id == oldp.poll_id
                        &&& v.record.chosen_option == option_index
                        &&& v.record.voted_at == now
                        &&& v.record.bump == b
                    }),
                    Option::None => false,
                },
            }
        }),
{
    let ghost s0 = *old(store);
    let pi = match find_poll_index(&store.polls, &ctx.poll_address) {
        Some(i) => i,
        None => {
            return Err(PollError::PollNotFound);
        },
    };
    proof {
        assert(occupied_poll(s0, ctx.poll_address@));
        let j = poll_index_of(s0, ctx.poll_address@);
        assert(0 <= j < s0.polls@.len() && s0.polls@[j].address@ == ctx.poll_address@);
        if j < pi {
            assert(s0.polls@[j].address@ != s0.polls@[pi as int].address@);
        } else if pi < j {
            assert(s0.polls@[pi as int].address@ != s0.polls@[j].address@);
        }
        assert(j == pi);
    }
    let idx = option_index as usize;
    let n_opts = store.polls[pi].poll.options.len();
    if idx >= n_opts {
        return Err(PollError::InvalidOptionIndex);
    }
    let (vaddr, b) = match derive_vote_address(&ctx.poll_address, &ctx.voter, usable) {
        Ok(x) => x,
        Err(e) => {
            return Err(e);
        },
    };
    if let Some(_occ) = find_vote_index(&store.votes, &vaddr) {
        return Err(PollError::AlreadyVoted);
    }
    assert(!occupied_vote(s0, vote_addr_key(ctx.poll_address@, ctx.voter@, b)));
    let mut entry = store.polls.remove(pi);
    let poll_id = entry.poll.poll_id;
    let cur = entry.poll.votes[idx];
    proof {
        assert(entry == s0.polls@[pi as int]);
        assert(poll_entry_wf(entry));
        lemma_count_votes_le_len(s0.votes@, s0.polls@[pi as int].address@);
        assert(entry.poll.total_votes < u64::MAX);
        crate::records::lemma_vote_le_sum(entry.poll.votes@, idx as int);
        assert(cur < u64::MAX);
    }
    let ghost old_votes = entry.poll.votes@;
    entry.poll.votes[idx] = cur + 1;
    entry.poll.total_votes = entry.poll.total_votes + 1;
    let new_total = entry.poll.total_votes;
    store.polls.insert(pi, entry);
    proof {
        assert(store.polls@ =~= s0.polls@.update(pi as int, entry));
    }
    let record = VoterRecord {
        voter: ctx.voter,
        poll_id,
        chosen_option: option_index,
        voted_at: now,
        bump: b,
    };
    let new_vote = VoteEntry { address: vaddr, poll_address: ctx.poll_address, record };
    store.votes.push(new_vote);
    proof {
        let s1 = *store;
        let ghost e = entry;
        let ghost nv = new_vote;
        let ghost pkey = s0.polls@[pi as int].address@;
        assert(s1.polls@ == s0.polls@.update(pi as int, e));
        assert(s1.votes@ == s0.votes@.push(nv));
        assert(s1.polls@[pi as int] == e);
        // Addresses are untouched, so pairwise distinctness carries over.
        assert forall|i: int| 0 <= i < s1.polls@.len() implies (#[trigger] s1.polls@[i]).address@
            == s0.polls@[i].address@ by {}
        assert forall|i: int, j: int| 0 <= i < j < s1.polls@.len() implies (
        #[trigger] s1.polls@[i]).address@ != (#[trigger] s1.polls@[j]).address@ by {
            assert(s0.polls@[i].address@ != s0.polls@[j].address@);
        }
        assert forall|i: int, j: int| 0 <= i < j < s1.votes@.len() implies (
        #[trigger] s1.votes@[i]).address@ != (#[trigger] s1.votes@[j]).address@ by {
            if j < s0.votes@.len() {
                assert(s1.votes@[i] == s0.votes@[i]);
                assert(s1.votes@[j] == s0.votes@[j]);
            } else {
                assert(s1.votes@[j] == nv);
                assert(s1.votes@[i] == s0.votes@[i]);
            }
        }
        // The updated poll entry stays internally consistent.
        crate::records::lemma_sum_votes_update(old_votes, idx as int, (cur + 1) as u64);
        assert(poll_entry_wf(e));
        assert forall|i: int| 0 <= i < s1.polls@.len() implies poll_entry_wf(
            #[trigger] s1.polls@[i],
        ) by {
            if i != pi as int {
                assert(s1.polls@[i] == s0.polls@[i]);
            }
        }
        // The new vote entry sits at its derived address and points at an
        // existing poll.
        assert(vote_entry_wf(nv));
        assert forall|i: int| 0 <= i < s1.votes@.len() implies vote_entry_wf(
            #[trigger] s1.votes@[i],
        ) by {
            if i < s0.votes@.len() {
                assert(s1.votes@[i] == s0.votes@[i]);
            }
        }
        assert forall|i: int| 0 <= i < s1.votes@.len() implies occupied_poll(
            s1,
            (#[trigger] s1.votes@[i]).poll_address@,
        ) by {
            let a = s1.votes@[i].poll_address@;
            if i < s0.votes@.len() {
                assert(occupied_poll(s0, a));
                let w = choose|w: int|
                    0 <= w < s0.polls@.len() && (#[trigger] s0.polls@[w]).address@ == a;
                assert((#[trigger] s1.polls@[w]).address@ == a);
            } else {
                assert(a == ctx.poll_address@);
                assert((#[trigger] s1.polls@[pi as int]).address@ == a);
            }
        }
        // Exactly this poll's vote count grew, and by exactly one.
        assert forall|i: int| 0 <= i < s1.polls@.len() implies (#[trigger] s1.polls@[i]).poll.total_votes
            == count_votes_for(s1.votes@, s1.polls@[i].address@) by {
            lemma_count_votes_push(s0.votes@, nv, s1.polls@[i].address@);
            if i != pi as int {
                assert(s1.polls@[i] == s0.polls@[i]);
                if i < pi as int {
                    assert(s0.polls@[i].address@ != s0.polls@[pi as int].address@);
                } else {
                    assert(s0.polls@[pi as int].address@ != s0.polls@[i].address@);
                }
                assert(nv.poll_address@ != s1.polls@[i].address@);
            } else {
                assert(nv.poll_address@ == s1.polls@[i].address@);
            }
        }
        assert(store_wf(s1));
        assert(poll_index_of(s0, ctx.poll_address@) == pi as int);
    }
    Ok(VoteReceipt { option_index, total_votes: new_total })
}

/// Tally consistency: in a well-formed store, every poll's running total
/// equals the sum of its per-option tallies, and equals the number of vote
/// records that exist for that poll.  `Store::new` establishes
/// well-formedness and `create_poll` and `vote` preserve it, so this holds
/// after any sequence of operations.
pub proof fn lemma_tally_consistency(s: Store, i: int)
    requires
        store_wf(s),
        0 <= i < s.polls@.len(),
    ensures
        s.polls@[i].poll.total_votes == sum_votes(s.polls@[i].poll.votes@),
        s.polls@[i].poll.total_votes == count_votes_for(s.votes@, s.polls@[i].address@),
{
    assert(poll_entry_wf(s.polls@[i]));
}

/// Idempotence of rejection: after a successful creation left the poll
/// record for `(creator, poll_id)` as the last poll entry, the derived
/// address is occupied, so by `create_poll`'s contract a second creation
/// with the same creator and identifier — the options may differ — reports
/// `AddressOccupied` and leaves the store, the first record included,
/// unchanged.
pub proof fn lemma_recreation_rejected(
    s: Store,
    creator: Seq<u8>,
    poll_id: u64,
    question: Seq<u8>,
    opts: Seq<Seq<u8>>,
    usable: Seq<bool>,
    b: u8,
)
    requires
        s.polls@.len() > 0,
        s.polls@.last().address@ == poll_addr_key(creator, poll_id, b),
        find_bump_spec(usable) == Some(b),
    ensures
        occupied_poll(s, poll_addr_key(creator, poll_id, b)),
        valid_question(question) && valid_options(opts) ==> create_poll_outcome(
            s,
            creator,
            poll_id,
            question,
            opts,
            usable,
        ) == Err::<(), PollError>(PollError::AddressOccupied),
{
    let w = s.polls@.len() - 1;
    assert((#[trigger] s.polls@[w]).address@ == poll_addr_key(creator, poll_id, b));
}

/// Poll-key injectivity: two poll address keys coincide only when creator,
/// identifier and disambiguator all coincide.  Distinct logical keys never
/// alias one poll address.
pub proof fn lemma_poll_key_injective(
    c1: Seq<u8>,
    id1: u64,
    b1: u8,
    c2: Seq<u8>,
    id2: u64,
    b2: u8,
)
    requires
        c1.len() < 0x10000000000000000,
        c2.len() < 0x10000000000000000,
        poll_addr_key(c1, id1, b1) == poll_addr_key(c2, id2, b2),
    ensures
        c1 == c2,
        id1 == id2,
        b1 == b2,
{
    crate::address::lemma_two_component_key_injective(
        poll_ns(),
        c1,
        le8(id1 as nat),
        b1,
        c2,
        le8(id2 as nat),
        b2,
    );
    crate::address::lemma_le8_injective(id1 as nat, id2 as nat);
}

/// Vote-key injectivity: two vote address keys coincide only when poll
/// address, voter and disambiguator all coincide.  Distinct voters, or
/// distinct polls, never alias one vote address.
pub proof fn lemma_vote_key_injective(
    pa1: Seq<u8>,
    v1: Seq<u8>,
    b1: u8,
    pa2: Seq<u8>,
    v2: Seq<u8>,
    b2: u8,
)
    requires
        pa1.len() < 0x10000000000000000,
        pa2.len() < 0x10000000000000000,
        vote_addr_key(pa1, v1, b1) == vote_addr_key(pa2, v2, b2),
    ensures
        pa1 == pa2,
        v1 == v2,
        b1 == b2,
{
    crate::address::lemma_two_component_key_injective(vote_ns(), pa1, v1, b1, pa2, v2, b2);
}

/// Create-once uniqueness at the record level: a well-formed store holds at
/// most one poll record per `(creator, poll_id, bump)` and at most one vote
/// record per `(poll_address, voter, bump)`.
pub proof fn lemma_one_record_per_key(s: Store, i: int, j: int)
    requires
        store_wf(s),
    ensures
        0 <= i < s.polls@.len() && 0 <= j < s.polls@.len() && s.polls@[i].poll.creator@
            == s.polls@[j].poll.creator@ && s.polls@[i].poll.poll_id == s.polls@[j].poll.poll_id
            && s.polls@[i].poll.bump == s.polls@[j].poll.bump ==> i == j,
        0 <= i < s.votes@.len() && 0 <= j < s.votes@.len() && s.votes@[i].poll_address@
            == s.votes@[j].poll_address@ && s.votes@[i].record.voter@ == s.votes@[j].record.voter@
            && s.votes@[i].record.bump == s.votes@[j].record.bump ==> i == j,
{
    if 0 <= i < s.polls@.len() && 0 <= j < s.polls@.len() {
        assert(poll_entry_wf(s.polls@[i]));
        assert(poll_entry_wf(s.polls@[j]));
    }
    if 0 <= i < s.votes@.len() && 0 <= j < s.votes@.len() {
        assert(vote_entry_wf(s.votes@[i]));
        assert(vote_entry_wf(s.votes@[j]));
    }
}

/// One-vote invariant: after a successful cast appended the vote record for
/// `(poll_address, voter)`, its derived address is occupied — and every
/// address occupied before stays occupied — so by `vote`'s contract every
/// later cast by the same voter on the same poll reports `AlreadyVoted` and
/// changes nothing.  Of any number of such casts, exactly the first
/// succeeds.
pub proof fn lemma_one_vote_per_voter(
    s0: Store,
    s1: Store,
    poll_address: Seq<u8>,
    voter: Seq<u8>,
    option_index: u8,
    usable: Seq<bool>,
    b: u8,
    v: VoteEntry,
)
    requires
        s1.votes@ == s0.votes@.push(v),
        v.address@ == vote_addr_key(poll_address, voter, b),
        find_bump_spec(usable) == Some(b),
    ensures
        occupied_vote(s1, vote_addr_key(poll_address, voter, b)),
        forall|a: Seq<u8>| #[trigger] occupied_vote(s0, a) ==> occupied_vote(s1, a),
        occupied_poll(s1, poll_address) && option_index < poll_at(
            s1,
            poll_address,
        ).options@.len() ==> vote_outcome(s1, poll_address, voter, option_index, usable) == Err::<
            (),
            PollError,
        >(PollError::AlreadyVoted),
{
    let w = s1.votes@.len() - 1;
    assert((#[trigger] s1.votes@[w]).address@ == vote_addr_key(poll_address, voter, b));
    assert forall|a: Seq<u8>| #[trigger] occupied_vote(s0, a) implies occupied_vote(s1, a) by {
        let i = choose|i: int| 0 <= i < s0.votes@.len() && (#[trigger] s0.votes@[i]).address@ == a;
        assert((#[trigger] s1.votes@[i]).address@ == a);
    }
}

} // verus!
