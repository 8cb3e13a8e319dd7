use polling_dapp::address::Identity;
use polling_dapp::errors::PollError;
use polling_dapp::store::create_poll;
use polling_dapp::store::vote;
use polling_dapp::store::CreatePoll;
use polling_dapp::store::Store;
use polling_dapp::store::Vote;

fn usable_all() -> Vec<bool> {
    vec![true; 256]
}

fn ident(tag: u8) -> Identity {
    Identity::new(vec![tag; 32])
}

fn bytes(s: &str) -> Vec<u8> {
    s.as_bytes().to_vec()
}

fn options_of(texts: &[&str]) -> Vec<Vec<u8>> {
    texts.iter().map(|t| bytes(t)).collect()
}

fn try_create(question: Vec<u8>, options: Vec<Vec<u8>>) -> (Store, Result<(), PollError>) {
    let usable = usable_all();
    let mut store = Store::new();
    let r = create_poll(
        &mut store,
        CreatePoll { creator: ident(1) },
        1,
        question,
        options,
        0,
        &usable,
    );
    (store, r.map(|_| ()))
}

#[test]
fn empty_question_is_rejected() {
    let (store, r) = try_create(Vec::new(), options_of(&["a", "b"]));
    assert_eq!(r.unwrap_err(), PollError::InvalidQuestion);
    assert_eq!(store.polls.len(), 0);
}

#[test]
fn question_of_200_bytes_is_accepted_201_is_rejected() {
    let (store, r) = try_create(vec![b'q'; 200], options_of(&["a", "b"]));
    assert!(r.is_ok());
    assert_eq!(store.polls.len(), 1);
    let (store, r) = try_create(vec![b'q'; 201], options_of(&["a", "b"]));
    assert_eq!(r.unwrap_err(), PollError::InvalidQuestion);
    assert_eq!(store.polls.len(), 0);
}

#[test]
fn one_option_is_rejected() {
    let (store, r) = try_create(bytes("q"), options_of(&["only"]));
    assert_eq!(r.unwrap_err(), PollError::InvalidOptions);
    assert_eq!(store.polls.len(), 0);
}

#[test]
fn eleven_options_are_rejected_ten_accepted() {
    let eleven: Vec<Vec<u8>> = (0..11).map(|i| vec![b'a' + i]).collect();
    let (store, r) = try_create(bytes("q"), eleven);
    assert_eq!(r.unwrap_err(), PollError::InvalidOptions);
    assert_eq!(store.polls.len(), 0);
    let ten: Vec<Vec<u8>> = (0..10).map(|i| vec![b'a' + i]).collect();
    let (store, r) = try_create(bytes("q"), ten);
    assert!(r.is_ok());
    assert_eq!(store.polls.len(), 1);
}

#[test]
fn empty_option_text_is_rejected() {
    let (store, r) = try_create(bytes("q"), vec![bytes("ok"), Vec::new()]);
    assert_eq!(r.unwrap_err(), PollError::InvalidOptionText);
    assert_eq!(store.polls.len(), 0);
}

#[test]
fn option_text_of_50_bytes_is_accepted_51_is_rejected() {
    let (store, r) = try_create(bytes("q"), vec![bytes("ok"), vec![b'x'; 50]]);
    assert!(r.is_ok());
    assert_eq!(store.polls.len(), 1);
    let (store, r) = try_create(bytes("q"), vec![bytes("ok"), vec![b'x'; 51]]);
    assert_eq!(r.unwrap_err(), PollError::InvalidOptionText);
    assert_eq!(store.polls.len(), 0);
}

#[test]
fn exhausted_address_space_is_a_checked_error() {
    let none_usable = vec![false; 256];
    let mut store = Store::new();
    let r = create_poll(
        &mut store,
        CreatePoll { creator: ident(1) },
        1,
        bytes("q"),
        options_of(&["a", "b"]),
        0,
        &none_usable,
    );
    assert_eq!(r.unwrap_err(), PollError::AddressSpaceExhausted);
    assert_eq!(store.polls.len(), 0);

    // A vote on an existing poll hits the same wall when no disambiguator
    // is usable for the vote record.
    let usable = usable_all();
    let addr = create_poll(
        &mut store,
        CreatePoll { creator: ident(1) },
        1,
        bytes("q"),
        options_of(&["a", "b"]),
        0,
        &usable,
    )
    .unwrap();
    let r = vote(
        &mut store,
        Vote {
            poll_address: addr,
            voter: ident(9),
        },
        0,
        0,
        &none_usable,
    );
    assert_eq!(r.unwrap_err(), PollError::AddressSpaceExhausted);
    assert_eq!(store.votes.len(), 0);
    assert_eq!(store.polls[0].poll.total_votes, 0);
}
