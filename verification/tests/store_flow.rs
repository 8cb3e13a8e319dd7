use polling_dapp::address::Identity;
use polling_dapp::errors::PollError;
use polling_dapp::store::create_poll;
use polling_dapp::store::vote;
use polling_dapp::store::CreatePoll;
use polling_dapp::store::Store;
use polling_dapp::store::Vote;

fn usable_all() -> Vec<bool> {
    vec![true; 256]
}

fn ident(tag: u8) -> Identity {
    Identity::new(vec![tag; 32])
}

fn bytes(s: &str) -> Vec<u8> {
    s.as_bytes().to_vec()
}

fn options_of(texts: &[&str]) -> Vec<Vec<u8>> {
    texts.iter().map(|t| bytes(t)).collect()
}

#[test]
fn create_poll_succeeds_with_zero_tallies() {
    let usable = usable_all();
    let mut store = Store::new();
    let r = create_poll(
        &mut store,
        CreatePoll { creator: ident(1) },
        1,
        bytes("Best language?"),
        options_of(&["Rust", "Go"]),
        1000,
        &usable,
    );
    assert!(r.is_ok());
    assert_eq!(store.polls.len(), 1);
    let poll = &store.polls[0].poll;
    assert_eq!(poll.votes, vec![0, 0]);
    assert_eq!(poll.total_votes, 0);
    assert_eq!(poll.poll_id, 1);
    assert_eq!(poll.question, bytes("Best language?"));
    assert_eq!(poll.created_at, 1000);
    assert_eq!(poll.options.len(), 2);
    assert_eq!(poll.options[0], bytes("Rust"));
    assert_eq!(poll.options[1], bytes("Go"));
    let addr = r.unwrap();
    assert_eq!(store.polls[0].address.bytes, addr.bytes);
}

#[test]
fn recreation_of_same_creator_and_id_is_rejected() {
    let usable = usable_all();
    let mut store = Store::new();
    let r1 = create_poll(
        &mut store,
        CreatePoll { creator: ident(1) },
        1,
        bytes("Best language?"),
        options_of(&["Rust", "Go"]),
        1000,
        &usable,
    );
    assert!(r1.is_ok());
    let r2 = create_poll(
        &mut store,
        CreatePoll { creator: ident(1) },
        1,
        bytes("Another question"),
        options_of(&["Yes", "No", "Maybe"]),
        2000,
        &usable,
    );
    assert_eq!(r2.unwrap_err(), PollError::AddressOccupied);
    // The first record is unchanged.
    assert_eq!(store.polls.len(), 1);
    assert_eq!(store.polls[0].poll.question, bytes("Best language?"));
    assert_eq!(store.polls[0].poll.created_at, 1000);
}

#[test]
fn same_id_different_creator_gets_its_own_record() {
    let usable = usable_all();
    let mut store = Store::new();
    let r1 = create_poll(
        &mut store,
        CreatePoll { creator: ident(1) },
        1,
        bytes("One?"),
        options_of(&["a", "b"]),
        0,
        &usable,
    );
    let r2 = create_poll(
        &mut store,
        CreatePoll { creator: ident(2) },
        1,
        bytes("Two?"),
        options_of(&["c", "d"]),
        0,
        &usable,
    );
    assert!(r1.is_ok());
    assert!(r2.is_ok());
    assert_eq!(store.polls.len(), 2);
}

#[test]
fn full_scenario_create_vote_revote_and_bad_index() {
    let usable = usable_all();
    let mut store = Store::new();
    let created = create_poll(
        &mut store,
        CreatePoll { creator: ident(1) },
        1,
        bytes("Best language?"),
        options_of(&["Rust", "Go"]),
        1000,
        &usable,
    );
    let addr = created.unwrap();

    // Voter A casts option 0: success, votes [1, 0], total 1.
    let receipt = vote(
        &mut store,
        Vote {
            poll_address: addr.duplicate(),
            voter: ident(10),
        },
        0,
        1500,
        &usable,
    )
    .unwrap();
    assert_eq!(receipt.option_index, 0);
    assert_eq!(receipt.total_votes, 1);
    assert_eq!(store.polls[0].poll.votes, vec![1, 0]);
    assert_eq!(store.polls[0].poll.total_votes, 1);
    assert_eq!(store.votes.len(), 1);
    assert_eq!(store.votes[0].record.chosen_option, 0);
    assert_eq!(store.votes[0].record.poll_id, 1);
    assert_eq!(store.votes[0].record.voted_at, 1500);

    // Voter A casts again: AlreadyVoted, nothing moves.
    let again = vote(
        &mut store,
        Vote {
            poll_address: addr.duplicate(),
            voter: ident(10),
        },
        1,
        1600,
        &usable,
    );
    assert_eq!(again.unwrap_err(), PollError::AlreadyVoted);
    assert_eq!(store.polls[0].poll.votes, vec![1, 0]);
    assert_eq!(store.polls[0].poll.total_votes, 1);
    assert_eq!(store.votes.len(), 1);

    // Voter B casts option 5 on a 2-option poll: InvalidOptionIndex.
    let bad = vote(
        &mut store,
        Vote {
            poll_address: addr.duplicate(),
            voter: ident(11),
        },
        5,
        1700,
        &usable,
    );
    assert_eq!(bad.unwrap_err(), PollError::InvalidOptionIndex);
    assert_eq!(store.votes.len(), 1);
}

#[test]
fn one_vote_per_voter_over_repeated_casts() {
    let usable = usable_all();
    let mut store = Store::new();
    let addr = create_poll(
        &mut store,
        CreatePoll { creator: ident(1) },
        7,
        bytes("Pick one"),
        options_of(&["x", "y", "z"]),
        0,
        &usable,
    )
    .unwrap();
    let voter = ident(42);
    let mut successes = 0;
    let mut already = 0;
    for attempt in 0..5 {
        let r = vote(
            &mut store,
            Vote {
                poll_address: addr.duplicate(),
                voter: voter.duplicate(),
            },
            attempt % 3,
            10 + attempt as i64,
            &usable,
        );
        match r {
            Ok(_) => successes += 1,
            Err(PollError::AlreadyVoted) => already += 1,
            Err(e) => panic!("unexpected error {:?}", e),
        }
    }
    assert_eq!(successes, 1);
    assert_eq!(already, 4);
    assert_eq!(store.polls[0].poll.total_votes, 1);
    assert_eq!(store.votes.len(), 1);
}

#[test]
fn tallies_stay_consistent_with_vote_records() {
    let usable = usable_all();
    let mut store = Store::new();
    let addr = create_poll(
        &mut store,
        CreatePoll { creator: ident(1) },
        3,
        bytes("Favourite?"),
        options_of(&["a", "b", "c"]),
        0,
        &usable,
    )
    .unwrap();
    let choices = [0u8, 2, 2, 1, 0, 2];
    for (who, choice) in choices.iter().enumerate() {
        let r = vote(
            &mut store,
            Vote {
                poll_address: addr.duplicate(),
                voter: ident(100 + who as u8),
            },
            *choice,
            who as i64,
            &usable,
        );
        assert!(r.is_ok());
    }
    let poll = &store.polls[0].poll;
    assert_eq!(poll.votes, vec![2, 1, 3]);
    assert_eq!(poll.total_votes, 6);
    let sum: u64 = poll.votes.iter().sum();
    assert_eq!(poll.total_votes, sum);
    // The running total equals the number of vote records for the poll.
    let records = store
        .votes
        .iter()
        .filter(|v| v.poll_address.bytes == addr.bytes)
        .count();
    assert_eq!(poll.total_votes as usize, records);
}

#[test]
fn vote_on_unknown_address_reports_poll_not_found() {
    let usable = usable_all();
    let mut store = Store::new();
    let r = vote(
        &mut store,
        Vote {
            poll_address: polling_dapp::address::Address { bytes: vec![1, 2, 3] },
            voter: ident(5),
        },
        0,
        0,
        &usable,
    );
    assert_eq!(r.unwrap_err(), PollError::PollNotFound);
}
