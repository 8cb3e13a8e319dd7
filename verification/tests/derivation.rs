use polling_dapp::address::derive_address;
use polling_dapp::address::find_bump;
use polling_dapp::address::poll_namespace;
use polling_dapp::address::vote_namespace;
use polling_dapp::address::Identity;
use polling_dapp::errors::PollError;
use polling_dapp::records::Poll;
use polling_dapp::records::VoterRecord;
use polling_dapp::store::derive_poll_address;
use polling_dapp::store::derive_vote_address;

fn usable_all() -> Vec<bool> {
    vec![true; 256]
}

fn bytes(s: &str) -> Vec<u8> {
    s.as_bytes().to_vec()
}

#[test]
fn derivation_is_deterministic() {
    let usable = usable_all();
    let creator = Identity::new(vec![7; 32]);
    let (a1, b1) = derive_poll_address(&creator, 42, &usable).unwrap();
    let (a2, b2) = derive_poll_address(&creator, 42, &usable).unwrap();
    assert_eq!(a1.bytes, a2.bytes);
    assert_eq!(b1, b2);

    let voter = Identity::new(vec![9; 32]);
    let (v1, c1) = derive_vote_address(&a1, &voter, &usable).unwrap();
    let (v2, c2) = derive_vote_address(&a2, &voter, &usable).unwrap();
    assert_eq!(v1.bytes, v2.bytes);
    assert_eq!(c1, c2);
}

#[test]
fn poll_and_vote_namespaces_never_collide() {
    let usable = usable_all();
    let comps = vec![bytes("same"), bytes("components")];
    let (p, _) = derive_address(&poll_namespace(), &comps, &usable).unwrap();
    let (v, _) = derive_address(&vote_namespace(), &comps, &usable).unwrap();
    assert_ne!(p.bytes, v.bytes);
}

#[test]
fn distinct_keys_get_distinct_addresses() {
    let usable = usable_all();
    let creator = Identity::new(vec![7; 32]);
    let other = Identity::new(vec![8; 32]);
    let (a, _) = derive_poll_address(&creator, 1, &usable).unwrap();
    let (b, _) = derive_poll_address(&creator, 2, &usable).unwrap();
    let (c, _) = derive_poll_address(&other, 1, &usable).unwrap();
    assert_ne!(a.bytes, b.bytes);
    assert_ne!(a.bytes, c.bytes);
    assert_ne!(b.bytes, c.bytes);
}

#[test]
fn bump_search_scans_from_the_high_end() {
    let all = usable_all();
    assert_eq!(find_bump(&all), Some(255));

    let mut only_three = vec![false; 256];
    only_three[3] = true;
    assert_eq!(find_bump(&only_three), Some(3));

    let mut two_candidates = vec![false; 256];
    two_candidates[10] = true;
    two_candidates[200] = true;
    assert_eq!(find_bump(&two_candidates), Some(200));

    let none = vec![false; 256];
    assert_eq!(find_bump(&none), None);
}

#[test]
fn derivation_reports_exhaustion_and_records_the_bump() {
    let none = vec![false; 256];
    let comps = vec![bytes("x")];
    let r = derive_address(&poll_namespace(), &comps, &none);
    assert_eq!(r.unwrap_err(), PollError::AddressSpaceExhausted);

    let mut only_three = vec![false; 256];
    only_three[3] = true;
    let (addr, bump) = derive_address(&poll_namespace(), &comps, &only_three).unwrap();
    assert_eq!(bump, 3);
    // The disambiguator is the last byte of the derived address, so the
    // stored bump re-derives the same address without a new search.
    assert_eq!(*addr.bytes.last().unwrap(), 3);
}

#[test]
fn space_matches_the_layout_formula_exactly() {
    let question = bytes("Best language?");
    let options = vec![bytes("Rust"), bytes("Go")];
    // 8 discriminator + 8 poll_id + 32 creator + (4 + 14) question
    // + (4 + (4 + 4) + (4 + 2)) options + (4 + 8 * 2) tallies
    // + 8 total_votes + 8 created_at + 1 bump + 100 margin.
    assert_eq!(Poll::space(&question, &options), 221);
}

#[test]
fn space_moves_byte_for_byte_with_option_length() {
    let question = bytes("Best language?");
    let base = Poll::space(&question, &vec![bytes("Rust"), bytes("Go")]);
    let longer = Poll::space(&question, &vec![bytes("Rust"), bytes("Gooo")]);
    let shorter = Poll::space(&question, &vec![bytes("Rus"), bytes("Go")]);
    assert_eq!(longer, base + 2);
    assert_eq!(shorter, base - 1);
    let longer_question = Poll::space(&bytes("Best language??"), &vec![bytes("Rust"), bytes("Go")]);
    assert_eq!(longer_question, base + 1);
}

#[test]
fn voter_record_space_is_fixed() {
    assert_eq!(VoterRecord::SPACE, 8 + 32 + 8 + 1 + 8 + 1);
    assert_eq!(VoterRecord::SPACE, 58);
}
