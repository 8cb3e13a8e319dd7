//! Deterministic address derivation.
//!
//! An address is derived from a namespace tag, an ordered sequence of byte
//! string components, and a one-byte disambiguator ("bump").  The derivation
//! is an injective encoding: every variable-length part is preceded by its
//! byte length, so two distinct logical keys never share an address, and the
//! same logical key always re-derives the same address.
//!
//! Which candidate addresses are usable is the surrounding store's concern:
//! the caller passes one acceptability flag per disambiguator value, and the
//! search takes the first usable value scanning from the high end downward.

use vstd::prelude::*;

use crate::errors::PollError;

verus! {

/// An opaque, comparable principal identifier (a creator or a voter).
#[derive(Debug)]
pub struct Identity {
    pub bytes: Vec<u8>,
}

impl View for Identity {
    type V = Seq<u8>;

    open spec fn view(&self) -> Seq<u8> {
        self.bytes@
    }
}

/// A storage address: the key under which a record lives.
#[derive(Debug)]
pub struct Address {
    pub bytes: Vec<u8>,
}

impl View for Address {
    type V = Seq<u8>;

    open spec fn view(&self) -> Seq<u8> {
        self.bytes@
    }
}

impl Identity {
    pub fn new(bytes: Vec<u8>) -> (r: Identity)
        ensures
            r@ == bytes@,
    {
        Identity { bytes }
    }

    /// A copy of this identity holding the same bytes.
    pub fn duplicate(&self) -> (r: Identity)
        ensures
            r@ == self@,
    {
        Identity { bytes: copy_bytes(&self.bytes) }
    }
}

impl Address {
    /// A copy of this address holding the same bytes.
    pub fn duplicate(&self) -> (r: Address)
        ensures
            r@ == self@,
    {
        Address { bytes: copy_bytes(&self.bytes) }
    }
}

/// A fresh vector holding the same bytes as `src`.
pub fn copy_bytes(src: &Vec<u8>) -> (r: Vec<u8>)
    ensures
        r@ == src@,
{
    let mut out: Vec<u8> = Vec::new();
    let mut i: usize = 0;
    while i < src.len()
        invariant
            i <= src@.len(),
            out@ == src@.subrange(0, i as int),
        decreases src@.len() - i,
    {
        out.push(src[i]);
        i = i + 1;
        assert(out@ =~= src@.subrange(0, i as int));
    }
    assert(out@ =~= src@);
    out
}

/// Whether two byte vectors hold the same bytes.
pub fn bytes_eq(a: &Vec<u8>, b: &Vec<u8>) -> (r: bool)
    ensures
        r == (a@ == b@),
{
    if a.len() != b.len() {
        return false;
    }
    let mut i: usize = 0;
    while i < a.len()
        invariant
            a@.len() == b@.len(),
            i <= a@.len(),
            forall|j: int| 0 <= j < i ==> a@[j] == b@[j],
        decreases a@.len() - i,
    {
        if a[i] != b[i] {
            return false;
        }
        i = i + 1;
    }
    assert(a@ =~= b@);
    true
}

/// The eight little-endian bytes of `n`: the length prefix written before
/// every variable-length part of an encoded key.
#[verifier::opaque]
pub open spec fn le8(n: nat) -> Seq<u8> {
    seq![
        (n % 256) as u8,
        ((n / 256) % 256) as u8,
        ((n / 65536) % 256) as u8,
        ((n / 16777216) % 256) as u8,
        ((n / 4294967296) % 256) as u8,
        ((n / 1099511627776) % 256) as u8,
        ((n / 281474976710656) % 256) as u8,
        ((n / 72057594037927936) % 256) as u8,
    ]
}

/// Appends the eight little-endian bytes of `n` to `out`.
pub fn push_le8(out: &mut Vec<u8>, n: u64)
    ensures
        final(out)@ == old(out)@ + le8(n as nat),
{
    proof {
        reveal(le8);
    }
    out.push((n % 256) as u8);
    out.push(((n / 256) % 256) as u8);
    out.push(((n / 65536) % 256) as u8);
    out.push(((n / 16777216) % 256) as u8);
    out.push(((n / 4294967296) % 256) as u8);
    out.push(((n / 1099511627776) % 256) as u8);
    out.push(((n / 281474976710656) % 256) as u8);
    out.push(((n / 72057594037927936) % 256) as u8);
    assert(out@ =~= old(out)@ + le8(n as nat));
}

/// The little-endian byte encoding of a `u64` value, as a vector.
pub fn u64_le_bytes(n: u64) -> (r: Vec<u8>)
    ensures
        r@ == le8(n as nat),
{
    let mut out: Vec<u8> = Vec::new();
    push_le8(&mut out, n);
    assert(out@ =~= le8(n as nat));
    out
}

pub proof fn lemma_le8_len(n: nat)
    ensures
        le8(n).len() == 8,
{
    reveal(le8);
}

/// Two values below 2^64 with the same eight little-endian bytes are equal.
pub proof fn lemma_le8_injective(n1: nat, n2: nat)
    requires
        n1 < 0x10000000000000000,
        n2 < 0x10000000000000000,
        le8(n1) == le8(n2),
    ensures
        n1 == n2,
{
    reveal(le8);
    let a = n1 as u64;
    let b = n2 as u64;
    assert(a == n1 && b == n2);
    assert(le8(n1)[0] == le8(n2)[0]);
    assert(le8(n1)[1] == le8(n2)[1]);
    assert(le8(n1)[2] == le8(n2)[2]);
    assert(le8(n1)[3] == le8(n2)[3]);
    assert(le8(n1)[4] == le8(n2)[4]);
    assert(le8(n1)[5] == le8(n2)[5]);
    assert(le8(n1)[6] == le8(n2)[6]);
    assert(le8(n1)[7] == le8(n2)[7]);
    assert(a == b) by (bit_vector)
        requires
            a % 256 == b % 256,
            (a / 256) % 256 == (b / 256) % 256,
            (a / 65536) % 256 == (b / 65536) % 256,
            (a / 16777216) % 256 == (b / 16777216) % 256,
            (a / 4294967296) % 256 == (b / 4294967296) % 256,
            (a / 1099511627776) % 256 == (b / 1099511627776) % 256,
            (a / 281474976710656) % 256 == (b / 281474976710656) % 256,
            (a / 72057594037927936) % 256 == (b / 72057594037927936) % 256,
    ;
}

/// One encoded component: its byte length, then its bytes.
pub open spec fn enc_comp(c: Seq<u8>) -> Seq<u8> {
    le8(c.len()) + c
}

/// All components encoded in order.
pub open spec fn enc_comps(cs: Seq<Seq<u8>>) -> Seq<u8>
    decreases cs.len(),
{
    if cs.len() == 0 {
        Seq::empty()
    } else {
        enc_comp(cs[0]) + enc_comps(cs.drop_first())
    }
}

/// The views of a sequence of byte vectors.
pub open spec fn views_of(cs: Seq<Vec<u8>>) -> Seq<Seq<u8>> {
    cs.map_values(|c: Vec<u8>| c@)
}

/// The full encoded key: the namespace tag (as a component), every key
/// component in order, and the disambiguator as the last byte.
pub open spec fn encode_key(ns: Seq<u8>, comps: Seq<Seq<u8>>, bump: u8) -> Seq<u8> {
    enc_comp(ns) + enc_comps(comps) + seq![bump]
}

#[verifier::rlimit(50)]
pub proof fn lemma_enc_comps_push(cs: Seq<Seq<u8>>, c: Seq<u8>)
    ensures
        enc_comps(cs.push(c)) == enc_comps(cs) + enc_comp(c),
    decreases cs.len(),
{
    if cs.len() == 0 {
        assert(cs.push(c)[0] == c);
        assert(cs.push(c).drop_first() =~= Seq::<Seq<u8>>::empty());
        assert(enc_comps(Seq::<Seq<u8>>::empty()) == Seq::<u8>::empty());
        assert(enc_comps(cs.push(c)) == enc_comp(c) + Seq::<u8>::empty());
        assert(enc_comp(c) + Seq::<u8>::empty() =~= enc_comp(c));
        assert(enc_comps(cs) + enc_comp(c) =~= enc_comp(c));
    } else {
        assert(cs.push(c).drop_first() =~= cs.drop_first().push(c));
        lemma_enc_comps_push(cs.drop_first(), c);
        assert(enc_comps(cs.push(c)) == enc_comp(cs[0]) + (enc_comps(cs.drop_first()) + enc_comp(
            c,
        )));
        assert(enc_comp(cs[0]) + (enc_comps(cs.drop_first()) + enc_comp(c)) =~= (enc_comp(cs[0])
            + enc_comps(cs.drop_first())) + enc_comp(c));
    }
}

/// The namespace tag for poll records: the bytes of "poll".
pub open spec fn poll_ns() -> Seq<u8> {
    seq![112u8, 111u8, 108u8, 108u8]
}

/// The namespace tag for vote records: the bytes of "vote".
pub open spec fn vote_ns() -> Seq<u8> {
    seq![118u8, 111u8, 116u8, 101u8]
}

/// The namespace tag for poll records, as a vector.
pub fn poll_namespace() -> (r: Vec<u8>)
    ensures
        r@ == poll_ns(),
{
    let mut v: Vec<u8> = Vec::new();
    v.push(112);
    v.push(111);
    v.push(108);
    v.push(108);
    assert(v@ =~= poll_ns());
    v
}

/// The namespace tag for vote records, as a vector.
pub fn vote_namespace() -> (r: Vec<u8>)
    ensures
        r@ == vote_ns(),
{
    let mut v: Vec<u8> = Vec::new();
    v.push(118);
    v.push(111);
    v.push(116);
    v.push(101);
    assert(v@ =~= vote_ns());
    v
}

/// The highest usable disambiguator value at or below `b`, scanning downward.
pub open spec fn highest_usable(usable: Seq<bool>, b: nat) -> Option<u8>
    decreases b,
{
    if usable[b as int] {
        Some(b as u8)
    } else if b == 0 {
        None
    } else {
        highest_usable(usable, (b - 1) as nat)
    }
}

/// The disambiguator the search settles on: the first usable value scanning
/// from the high end of the one-byte range downward, if any is usable.
pub open spec fn find_bump_spec(usable: Seq<bool>) -> Option<u8> {
    highest_usable(usable, 255)
}

/// Scans the disambiguator range from the high end downward and returns the
/// first value the caller's acceptability flags mark usable.
pub fn find_bump(usable: &Vec<bool>) -> (r: Option<u8>)
    requires
        usable@.len() == 256,
    ensures
        r == find_bump_spec(usable@),
{
    let mut i: usize = 256;
    while i > 0
        invariant
            usable@.len() == 256,
            i <= 256,
            find_bump_spec(usable@) == if i == 0 {
                None::<u8>
            } else {
                highest_usable(usable@, (i - 1) as nat)
            },
        decreases i,
    {
        if usable[i - 1] {
            return Some((i - 1) as u8);
        }
        i = i - 1;
    }
    None
}

/// Appends the encoding of one component to `out`.
pub fn push_component(out: &mut Vec<u8>, c: &Vec<u8>)
    ensures
        final(out)@ == old(out)@ + enc_comp(c@),
{
    push_le8(out, c.len() as u64);
    let mut i: usize = 0;
    while i < c.len()
        invariant
            out@ == old(out)@ + le8(c@.len()) + c@.subrange(0, i as int),
            i <= c@.len(),
        decreases c@.len() - i,
    {
        out.push(c[i]);
        i = i + 1;
        assert(out@ =~= old(out)@ + le8(c@.len()) + c@.subrange(0, i as int));
    }
    assert(out@ =~= old(out)@ + enc_comp(c@));
}

/// Derives the storage address for `(namespace, components)`.
///
/// Deterministic: the result is a pure function of the arguments.  The
/// disambiguator is the first usable value scanning from the high end of the
/// range downward; if no value is usable the derivation reports
/// `AddressSpaceExhausted` rather than producing an address.
pub fn derive_address(namespace: &Vec<u8>, components: &Vec<Vec<u8>>, usable: &Vec<bool>) -> (r:
    Result<(Address, u8), PollError>)
    requires
        usable@.len() == 256,
    ensures
        r is Ok <==> find_bump_spec(usable@) is Some,
        r is Err ==> r == Err::<(Address, u8), PollError>(PollError::AddressSpaceExhausted),
        r matches Ok((addr, bump)) ==> Some(bump) == find_bump_spec(usable@) && addr@
            == encode_key(namespace@, views_of(components@), bump),
{
    let bump = match find_bump(usable) {
        Some(b) => b,
        None => {
            return Err(PollError::AddressSpaceExhausted);
        },
    };
    let mut bytes: Vec<u8> = Vec::new();
    push_component(&mut bytes, namespace);
    let mut i: usize = 0;
    while i < components.len()
        invariant
            i <= components@.len(),
            bytes@ == enc_comp(namespace@) + enc_comps(views_of(components@.subrange(0, i as int))),
        decreases components@.len() - i,
    {
        let ghost done = views_of(components@.subrange(0, i as int));
        push_component(&mut bytes, &components[i]);
        proof {
            lemma_enc_comps_push(done, components@[i as int]@);
            assert(views_of(components@.subrange(0, i as int + 1)) =~= done.push(
                components@[i as int]@,
            ));
        }
        i = i + 1;
    }
    assert(views_of(components@.subrange(0, components@.len() as int)) =~= views_of(components@));
    bytes.push(bump);
    assert(bytes@ =~= encode_key(namespace@, views_of(components@), bump));
    Ok((Address { bytes }, bump))
}

/// Namespace separation: encoded keys under two different namespace tags of
/// the same length never coincide, whatever the components and disambiguators
/// are.  In particular, a key derived under "poll" never collides with a key
/// derived under "vote".
pub proof fn lemma_namespace_separation(
    ns1: Seq<u8>,
    ns2: Seq<u8>,
    comps: Seq<Seq<u8>>,
    b1: u8,
    b2: u8,
)
    requires
        ns1.len() == ns2.len(),
        ns1 != ns2,
    ensures
        encode_key(ns1, comps, b1) != encode_key(ns2, comps, b2),
{
    assert(exists|i: int| 0 <= i < ns1.len() && ns1[i] != ns2[i]) by {
        if forall|i: int| 0 <= i < ns1.len() ==> ns1[i] == ns2[i] {
            assert(ns1 =~= ns2);
        }
    }
    let i = choose|i: int| 0 <= i < ns1.len() && ns1[i] != ns2[i];
    lemma_le8_len(ns1.len());
    lemma_le8_len(ns2.len());
    assert(encode_key(ns1, comps, b1)[8 + i] == ns1[i]);
    assert(encode_key(ns2, comps, b2)[8 + i] == ns2[i]);
}

/// Key injectivity for two-component keys: under one namespace, two encoded
/// keys coincide only when both components and the disambiguator coincide.
/// Together with `lemma_namespace_separation` this is the collision-avoidance
/// contract: two distinct logical keys never alias one address.
#[verifier::rlimit(50)]
pub proof fn lemma_two_component_key_injective(
    ns: Seq<u8>,
    x1: Seq<u8>,
    y1: Seq<u8>,
    b1: u8,
    x2: Seq<u8>,
    y2: Seq<u8>,
    b2: u8,
)
    requires
        x1.len() < 0x10000000000000000,
        x2.len() < 0x10000000000000000,
        encode_key(ns, seq![x1, y1], b1) == encode_key(ns, seq![x2, y2], b2),
    ensures
        x1 == x2,
        y1 == y2,
        b1 == b2,
{
    let k1 = encode_key(ns, seq![x1, y1], b1);
    let k2 = encode_key(ns, seq![x2, y2], b2);
    let f1 = le8(ns.len()) + ns + le8(x1.len()) + x1 + le8(y1.len()) + y1 + seq![b1];
    let f2 = le8(ns.len()) + ns + le8(x2.len()) + x2 + le8(y2.len()) + y2 + seq![b2];
    lemma_le8_len(ns.len());
    lemma_le8_len(x1.len());
    lemma_le8_len(x2.len());
    lemma_le8_len(y1.len());
    lemma_le8_len(y2.len());
    assert(seq![x1, y1].drop_first() =~= seq![y1]);
    assert(seq![y1].drop_first() =~= Seq::<Seq<u8>>::empty());
    assert(seq![x2, y2].drop_first() =~= seq![y2]);
    assert(seq![y2].drop_first() =~= Seq::<Seq<u8>>::empty());
    assert(enc_comps(Seq::<Seq<u8>>::empty()) == Seq::<u8>::empty());
    assert(seq![x1, y1][0] == x1 && seq![y1][0] == y1);
    assert(seq![x2, y2][0] == x2 && seq![y2][0] == y2);
    assert(enc_comps(seq![y1]) == enc_comp(y1) + enc_comps(Seq::<Seq<u8>>::empty()));
    assert(enc_comps(seq![x1, y1]) == enc_comp(x1) + enc_comps(seq![y1]));
    assert(enc_comps(seq![y2]) == enc_comp(y2) + enc_comps(Seq::<Seq<u8>>::empty()));
    assert(enc_comps(seq![x2, y2]) == enc_comp(x2) + enc_comps(seq![y2]));
    assert(k1 =~= f1);
    assert(k2 =~= f2);
    assert(f1.len() == 8 + ns.len() + 8 + x1.len() + 8 + y1.len() + 1);
    assert(f2.len() == 8 + ns.len() + 8 + x2.len() + 8 + y2.len() + 1);
    let o = 8 + ns.len() as int;
    assert forall|j: int| 0 <= j < 8 implies le8(x1.len())[j] == le8(x2.len())[j] by {
        assert(f1[o + j] == le8(x1.len())[j]);
        assert(f2[o + j] == le8(x2.len())[j]);
    }
    assert(le8(x1.len()) =~= le8(x2.len()));
    lemma_le8_injective(x1.len(), x2.len());
    assert forall|j: int| 0 <= j < x1.len() implies x1[j] == x2[j] by {
        assert(f1[o + 8 + j] == x1[j]);
        assert(f2[o + 8 + j] == x2[j]);
    }
    assert(x1 =~= x2);
    assert(y1.len() == y2.len());
    let oy = o + 8 + x1.len() as int + 8;
    assert forall|j: int| 0 <= j < y1.len() implies y1[j] == y2[j] by {
        assert(f1[oy + j] == y1[j]);
        assert(f2[oy + j] == y2[j]);
    }
    assert(y1 =~= y2);
    assert(f1[f1.len() - 1] == b1);
    assert(f2[f2.len() - 1] == b2);
}

/// Derivation separation for the two namespaces this store uses: a poll
/// address and a vote address never coincide, even for identical components.
pub proof fn lemma_poll_vote_separation(comps: Seq<Seq<u8>>, b1: u8, b2: u8)
    ensures
        encode_key(poll_ns(), comps, b1) != encode_key(vote_ns(), comps, b2),
{
    assert(poll_ns()[0] != vote_ns()[0]);
    lemma_namespace_separation(poll_ns(), vote_ns(), comps, b1, b2);
}

} // verus!
