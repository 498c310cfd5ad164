use post_ledger::{
    address_of, anchor_of, next_step, Address, Agent, AgentAddress, Entry, InvalidPost, Ledger,
    LedgerError, LinkType, Post, Reply, Step,
};

fn address(byte: u8) -> Address {
    Address::from_bytes(vec![byte])
}

fn short() -> String {
    "a short message".to_string()
}

fn long() -> String {
    "x".repeat(141)
}

#[test]
fn accepted_post_takes_three_steps() {
    let step = next_step(Step::PutAnchor, Reply::Stored(address(1)), &short());
    match &step {
        Step::PutPost { anchor } => assert_eq!(anchor, &address(1)),
        other => panic!("unexpected step {:?}", other),
    }
    let step = next_step(step, Reply::Stored(address(2)), &short());
    match &step {
        Step::LinkPost { anchor, post } => {
            assert_eq!(anchor, &address(1));
            assert_eq!(post, &address(2));
        }
        other => panic!("unexpected step {:?}", other),
    }
    let step = next_step(step, Reply::Linked, &short());
    match &step {
        Step::Done { outcome } => assert_eq!(outcome, &Ok(address(2))),
        other => panic!("unexpected step {:?}", other),
    }
    // Once done, always done.
    let step = next_step(step, Reply::Failed(LedgerError::NotFound), &short());
    assert!(matches!(step, Step::Done { outcome: Ok(_) }));
}

#[test]
fn refused_long_post_is_quarantined_before_the_refusal_is_returned() {
    let step = Step::PutPost { anchor: address(1) };
    let step = next_step(step, Reply::Failed(LedgerError::TooLong), &long());
    match &step {
        Step::PutInvalidPost { anchor, refusal } => {
            assert_eq!(anchor, &address(1));
            assert_eq!(*refusal, LedgerError::TooLong);
        }
        other => panic!("unexpected step {:?}", other),
    }
    let step = next_step(step, Reply::Stored(address(3)), &long());
    match &step {
        Step::LinkInvalidPost { anchor, record, refusal } => {
            assert_eq!(anchor, &address(1));
            assert_eq!(record, &address(3));
            assert_eq!(*refusal, LedgerError::TooLong);
        }
        other => panic!("unexpected step {:?}", other),
    }
    let step = next_step(step, Reply::Linked, &long());
    assert!(matches!(step, Step::Done { outcome: Err(LedgerError::TooLong) }));
}

#[test]
fn refused_short_post_is_not_quarantined() {
    let step = next_step(
        Step::PutPost { anchor: address(1) },
        Reply::Failed(LedgerError::AuthorBanned),
        &short(),
    );
    assert!(matches!(step, Step::Done { outcome: Err(LedgerError::AuthorBanned) }));
    let exactly = "y".repeat(140);
    let step = next_step(
        Step::PutPost { anchor: address(1) },
        Reply::Failed(LedgerError::AuthorBanned),
        &exactly,
    );
    assert!(matches!(step, Step::Done { outcome: Err(LedgerError::AuthorBanned) }));
}

#[test]
fn opaque_refusal_of_a_long_post_is_kept_through_the_quarantine() {
    let step = next_step(
        Step::PutPost { anchor: address(1) },
        Reply::Failed(LedgerError::StoreUnavailable),
        &long(),
    );
    let step = next_step(step, Reply::Stored(address(3)), &long());
    let step = next_step(step, Reply::Linked, &long());
    assert!(matches!(step, Step::Done { outcome: Err(LedgerError::StoreUnavailable) }));
}

#[test]
fn a_failure_ends_the_work() {
    let failed = || Reply::Failed(LedgerError::StoreUnavailable);
    let step = next_step(Step::PutAnchor, failed(), &short());
    assert!(matches!(step, Step::Done { outcome: Err(LedgerError::StoreUnavailable) }));
    let step = next_step(
        Step::LinkPost { anchor: address(1), post: address(2) },
        failed(),
        &short(),
    );
    assert!(matches!(step, Step::Done { outcome: Err(LedgerError::StoreUnavailable) }));
    let step = next_step(
        Step::PutInvalidPost { anchor: address(1), refusal: LedgerError::TooLong },
        Reply::Failed(LedgerError::NotActuallyInvalid),
        &long(),
    );
    assert!(matches!(step, Step::Done { outcome: Err(LedgerError::NotActuallyInvalid) }));
    let step = next_step(
        Step::LinkInvalidPost {
            anchor: address(1),
            record: address(3),
            refusal: LedgerError::TooLong,
        },
        failed(),
        &long(),
    );
    assert!(matches!(step, Step::Done { outcome: Err(LedgerError::StoreUnavailable) }));
}

#[test]
fn a_reply_that_answers_nothing_ends_the_work() {
    let step = next_step(Step::PutAnchor, Reply::Linked, &short());
    assert!(matches!(step, Step::Done { outcome: Err(LedgerError::StoreUnavailable) }));
    let step = next_step(
        Step::LinkPost { anchor: address(1), post: address(2) },
        Reply::Stored(address(9)),
        &short(),
    );
    assert!(matches!(step, Step::Done { outcome: Err(LedgerError::StoreUnavailable) }));
}

#[test]
fn replies_are_made_of_results() {
    assert!(matches!(Reply::stored(Ok(address(4))), Reply::Stored(at) if at == address(4)));
    assert!(matches!(
        Reply::stored(Err(LedgerError::TooLong)),
        Reply::Failed(LedgerError::TooLong)
    ));
    assert!(matches!(Reply::linked(Ok(())), Reply::Linked));
    assert!(matches!(
        Reply::linked(Err(LedgerError::NotFound)),
        Reply::Failed(LedgerError::NotFound)
    ));
}

#[test]
fn steps_driven_by_hand_fill_the_ledger() {
    let mut ledger = Ledger::new();
    let alice = AgentAddress::new("alice".to_string());
    let post = Post::new(long(), 5, alice.clone());
    let message = long();
    let mut step = Step::PutAnchor;
    let mut taken = 0;
    let outcome = loop {
        let reply = match &step {
            Step::PutAnchor => Reply::stored(ledger.put(Entry::AgentIndex(Agent::of(&alice)))),
            Step::PutPost { .. } => Reply::stored(ledger.put(Entry::Post(post.clone()))),
            Step::PutInvalidPost { .. } => {
                Reply::stored(ledger.put(Entry::InvalidPost(InvalidPost::new(post.clone()))))
            }
            Step::LinkPost { anchor, post } => {
                Reply::linked(ledger.link(anchor, post, LinkType::AuthorPost, String::new()))
            }
            Step::LinkInvalidPost { anchor, record, .. } => {
                Reply::linked(ledger.link(anchor, record, LinkType::InvalidPosts, String::new()))
            }
            Step::Done { outcome } => break outcome.clone(),
        };
        step = next_step(step, reply, &message);
        taken += 1;
    };
    assert_eq!(taken, 4);
    assert_eq!(outcome, Err(LedgerError::TooLong));
    assert!(ledger.get(&anchor_of(&alice)).is_some());
    assert!(ledger
        .get(&address_of(&Entry::InvalidPost(InvalidPost::new(post.clone()))))
        .is_some());
    assert!(ledger.get(&address_of(&Entry::Post(post))).is_none());
}

#[test]
fn reasons_in_words() {
    assert_eq!(LedgerError::TooLong.reason(), "Post is too long");
    assert_eq!(LedgerError::NotActuallyInvalid.reason(), "Invalid post is actually valid");
    assert_eq!(
        LedgerError::ImmutableRecord.reason(),
        "Modifying or deleting an invalid post is not possible"
    );
    assert_eq!(LedgerError::AuthorBanned.reason(), "This agent is banned");
    assert_eq!(LedgerError::NotFound.reason(), "No entry at this address");
    assert_eq!(LedgerError::StoreUnavailable.reason(), "The store is not available");
}
