use post_ledger::{
    address_of, anchor_of, create_post, delete_post, get_agent_id, hello_holo, linked_post,
    retrieve_posts, update_post, Address, Agent, AgentAddress, Entry, InvalidPost, Ledger,
    LedgerError, LinkMatch, LinkType, Post,
};

fn agent(name: &str) -> AgentAddress {
    AgentAddress::new(name.to_string())
}

fn text(len: usize, fill: char) -> String {
    std::iter::repeat(fill).take(len).collect()
}

fn quarantined(ledger: &Ledger, who: &AgentAddress) -> usize {
    ledger.count_links(
        &anchor_of(who),
        &LinkMatch::Exactly(LinkType::InvalidPosts),
        &LinkMatch::Any,
    )
}

#[test]
fn short_post_is_stored_and_linked() {
    let mut ledger = Ledger::new();
    let alice = agent("alice");
    let address = create_post(&mut ledger, &alice, "hello".to_string(), 7).unwrap();

    let expected = Post::new("hello".to_string(), 7, alice.clone());
    assert_eq!(address, address_of(&Entry::Post(expected.clone())));
    assert_eq!(ledger.get(&address), Some(Entry::Post(expected)));

    let anchor = anchor_of(&alice);
    assert_eq!(ledger.get(&anchor), Some(Entry::AgentIndex(Agent::of(&alice))));
    let links = ledger.get_links(
        &anchor,
        &LinkMatch::Exactly(LinkType::AuthorPost),
        &LinkMatch::Exactly(String::new()),
    );
    assert_eq!(links.len(), 1);
    assert_eq!(links[0].base(), &anchor);
    assert_eq!(links[0].target(), &address);
    assert_eq!(links[0].link_type(), LinkType::AuthorPost);
    assert_eq!(links[0].tag(), "");
    assert_eq!(quarantined(&ledger, &alice), 0);
}

#[test]
fn long_post_is_refused_and_quarantined() {
    let mut ledger = Ledger::new();
    let alice = agent("alice");
    let message = text(200, 'x');
    let outcome = create_post(&mut ledger, &alice, message.clone(), 9);
    assert_eq!(outcome, Err(LedgerError::TooLong));

    let post = Post::new(message.clone(), 9, alice.clone());
    let record = Entry::InvalidPost(InvalidPost::new(post.clone()));
    let record_address = address_of(&record);
    match ledger.get(&record_address) {
        Some(Entry::InvalidPost(invalid)) => {
            assert_eq!(invalid.post().message(), &message);
            assert_eq!(invalid.post().timestamp(), 9);
            assert_eq!(invalid.post().author_id(), &alice);
        }
        other => panic!("no quarantine record: {:?}", other),
    }
    assert_eq!(ledger.get(&address_of(&Entry::Post(post))), None);

    let links = ledger.get_links(
        &anchor_of(&alice),
        &LinkMatch::Exactly(LinkType::InvalidPosts),
        &LinkMatch::Any,
    );
    assert_eq!(links.len(), 1);
    assert_eq!(links[0].target(), &record_address);
    assert_eq!(links[0].tag(), "");
    assert_eq!(quarantined(&ledger, &alice), 1);
    assert!(retrieve_posts(&ledger, &alice).is_empty());
}

#[test]
fn boundary_is_inclusive_at_140() {
    let mut ledger = Ledger::new();
    let alice = agent("alice");
    assert!(create_post(&mut ledger, &alice, text(140, 'a'), 1).is_ok());
    assert_eq!(
        create_post(&mut ledger, &alice, text(141, 'a'), 2),
        Err(LedgerError::TooLong)
    );
    assert!(create_post(&mut ledger, &alice, String::new(), 3).is_ok());
}

#[test]
fn length_is_counted_in_characters() {
    let mut ledger = Ledger::new();
    let alice = agent("alice");
    let wide = text(140, 'é');
    assert_eq!(wide.len(), 280);
    assert!(create_post(&mut ledger, &alice, wide, 1).is_ok());
    assert_eq!(
        create_post(&mut ledger, &alice, text(141, 'é'), 2),
        Err(LedgerError::TooLong)
    );
}

#[test]
fn four_quarantined_posts_ban_the_author() {
    let mut ledger = Ledger::new();
    let alice = agent("alice");
    for i in 0..4u64 {
        let message = format!("{}{}", i, text(199, 'z'));
        assert_eq!(message.chars().count(), 200);
        assert_eq!(
            create_post(&mut ledger, &alice, message, i),
            Err(LedgerError::TooLong)
        );
    }
    assert_eq!(quarantined(&ledger, &alice), 4);
    assert_eq!(
        create_post(&mut ledger, &alice, text(50, 'k'), 10),
        Err(LedgerError::AuthorBanned)
    );
    assert!(retrieve_posts(&ledger, &alice).is_empty());
}

#[test]
fn three_quarantined_posts_do_not_ban() {
    let mut ledger = Ledger::new();
    let alice = agent("alice");
    for i in 0..3u64 {
        assert_eq!(
            create_post(&mut ledger, &alice, text(150, 'z'), i),
            Err(LedgerError::TooLong)
        );
    }
    assert_eq!(quarantined(&ledger, &alice), 3);
    assert!(create_post(&mut ledger, &alice, text(50, 'k'), 10).is_ok());
}

#[test]
fn ban_is_permanent_and_personal() {
    let mut ledger = Ledger::new();
    let alice = agent("alice");
    let bob = agent("bob");
    for i in 0..4u64 {
        let _ = create_post(&mut ledger, &alice, text(141, 'z'), i);
    }
    assert!(create_post(&mut ledger, &bob, "fine".to_string(), 1).is_ok());
    let _ = create_post(&mut ledger, &bob, text(300, 'b'), 2);
    for i in 0..3u64 {
        assert_eq!(
            create_post(&mut ledger, &alice, "short".to_string(), 100 + i),
            Err(LedgerError::AuthorBanned)
        );
    }
    // A banned author's refusals are not quarantined.
    assert_eq!(quarantined(&ledger, &alice), 4);
    assert!(ledger
        .get(&address_of(&Entry::Post(Post::new("short".to_string(), 100, alice.clone()))))
        .is_none());
    // The length is judged first, so a long message is still `TooLong`, and counted.
    assert_eq!(
        create_post(&mut ledger, &alice, text(141, 'q'), 200),
        Err(LedgerError::TooLong)
    );
    assert_eq!(quarantined(&ledger, &alice), 5);
    assert_eq!(quarantined(&ledger, &bob), 1);
    assert!(create_post(&mut ledger, &bob, "still fine".to_string(), 3).is_ok());
}

#[test]
fn same_long_post_is_quarantined_once() {
    let mut ledger = Ledger::new();
    let alice = agent("alice");
    for _ in 0..5 {
        assert_eq!(
            create_post(&mut ledger, &alice, text(200, 'x'), 1),
            Err(LedgerError::TooLong)
        );
    }
    assert_eq!(quarantined(&ledger, &alice), 1);
    assert!(create_post(&mut ledger, &alice, "ok".to_string(), 2).is_ok());
}

#[test]
fn round_trip_returns_every_post() {
    let mut ledger = Ledger::new();
    let alice = agent("alice");
    let bob = agent("bob");
    let mut sent: Vec<(Address, Post)> = Vec::new();
    for i in 0..5u64 {
        let message = format!("post number {}", i);
        let address = create_post(&mut ledger, &alice, message.clone(), i).unwrap();
        sent.push((address, Post::new(message, i, alice.clone())));
    }
    create_post(&mut ledger, &bob, "not hers".to_string(), 1).unwrap();

    let got = retrieve_posts(&ledger, &alice);
    assert_eq!(got.len(), 5);
    for pair in &sent {
        assert_eq!(got.iter().filter(|other| *other == pair).count(), 1);
    }
    let of_bob = retrieve_posts(&ledger, &bob);
    assert_eq!(of_bob.len(), 1);
    assert_eq!(of_bob[0].1.message(), "not hers");
    assert!(retrieve_posts(&ledger, &agent("carol")).is_empty());
}

#[test]
fn same_post_twice_is_one_post() {
    let mut ledger = Ledger::new();
    let alice = agent("alice");
    let first = create_post(&mut ledger, &alice, "again".to_string(), 4).unwrap();
    let second = create_post(&mut ledger, &alice, "again".to_string(), 4).unwrap();
    assert_eq!(first, second);
    assert_eq!(retrieve_posts(&ledger, &alice).len(), 1);
    let third = create_post(&mut ledger, &alice, "again".to_string(), 5).unwrap();
    assert_ne!(first, third);
    assert_eq!(retrieve_posts(&ledger, &alice).len(), 2);
}

#[test]
fn retrieve_passes_over_what_is_no_post() {
    let mut ledger = Ledger::new();
    let alice = agent("alice");
    let anchor = anchor_of(&alice);
    let kept = create_post(&mut ledger, &alice, "kept".to_string(), 1).unwrap();
    let _ = create_post(&mut ledger, &alice, text(150, 'x'), 2);
    let record = address_of(&Entry::InvalidPost(InvalidPost::new(Post::new(
        text(150, 'x'),
        2,
        alice.clone(),
    ))));
    let nowhere = Address::from_bytes(vec![9, 9, 9]);
    ledger.link(&anchor, &nowhere, LinkType::AuthorPost, String::new()).unwrap();
    ledger.link(&anchor, &record, LinkType::AuthorPost, String::new()).unwrap();
    ledger.link(&anchor, &anchor, LinkType::AuthorPost, String::new()).unwrap();
    // A second link to the same post, under another tag.
    ledger.link(&anchor, &kept, LinkType::AuthorPost, "pinned".to_string()).unwrap();

    let got = retrieve_posts(&ledger, &alice);
    assert_eq!(got.len(), 1);
    assert_eq!(got[0].0, kept);
    assert_eq!(got[0].1, Post::new("kept".to_string(), 1, alice.clone()));
}

#[test]
fn update_stores_a_new_post_and_keeps_the_old() {
    let mut ledger = Ledger::new();
    let alice = agent("alice");
    let old = create_post(&mut ledger, &alice, "first".to_string(), 1).unwrap();
    let new = update_post(&mut ledger, &alice, &old, "second".to_string(), 2).unwrap();
    assert_ne!(old, new);
    assert_eq!(new, address_of(&Entry::Post(Post::new("second".to_string(), 2, alice.clone()))));
    assert_eq!(
        ledger.get(&old),
        Some(Entry::Post(Post::new("first".to_string(), 1, alice.clone())))
    );
    assert_eq!(
        ledger.get(&new),
        Some(Entry::Post(Post::new("second".to_string(), 2, alice.clone())))
    );
}

#[test]
fn update_is_judged_as_create_is() {
    let mut ledger = Ledger::new();
    let alice = agent("alice");
    let old = create_post(&mut ledger, &alice, "first".to_string(), 1).unwrap();
    assert_eq!(
        update_post(&mut ledger, &alice, &old, text(141, 'x'), 2),
        Err(LedgerError::TooLong)
    );
    assert!(update_post(&mut ledger, &alice, &old, text(140, 'x'), 2).is_ok());
    for i in 0..4u64 {
        let _ = create_post(&mut ledger, &alice, text(141, 'z'), i);
    }
    assert_eq!(
        update_post(&mut ledger, &alice, &old, "third".to_string(), 3),
        Err(LedgerError::AuthorBanned)
    );
    assert_eq!(
        update_post(&mut ledger, &alice, &old, text(141, 'x'), 3),
        Err(LedgerError::TooLong)
    );
    // A refused update is not quarantined.
    assert_eq!(quarantined(&ledger, &alice), 4);
}

#[test]
fn update_of_what_is_not_there_is_not_found() {
    let mut ledger = Ledger::new();
    let alice = agent("alice");
    let nowhere = Address::from_bytes(vec![1, 2, 3]);
    assert_eq!(
        update_post(&mut ledger, &alice, &nowhere, "text".to_string(), 1),
        Err(LedgerError::NotFound)
    );
    assert_eq!(
        update_post(&mut ledger, &alice, &nowhere, text(500, 'x'), 1),
        Err(LedgerError::NotFound)
    );
}

#[test]
fn quarantine_record_cannot_be_updated_or_deleted() {
    let mut ledger = Ledger::new();
    let alice = agent("alice");
    let _ = create_post(&mut ledger, &alice, text(150, 'x'), 2);
    let record = address_of(&Entry::InvalidPost(InvalidPost::new(Post::new(
        text(150, 'x'),
        2,
        alice.clone(),
    ))));
    assert_eq!(
        update_post(&mut ledger, &alice, &record, "better".to_string(), 3),
        Err(LedgerError::ImmutableRecord)
    );
    assert_eq!(delete_post(&mut ledger, &record), Err(LedgerError::ImmutableRecord));
    assert!(!ledger.is_retired(&record));
    assert!(ledger.get(&record).is_some());
}

#[test]
fn delete_is_recorded_and_the_post_still_resolves() {
    let mut ledger = Ledger::new();
    let alice = agent("alice");
    let address = create_post(&mut ledger, &alice, "short lived".to_string(), 1).unwrap();
    assert!(!ledger.is_retired(&address));
    assert_eq!(delete_post(&mut ledger, &address), Ok(()));
    assert!(ledger.is_retired(&address));
    assert_eq!(
        ledger.get(&address),
        Some(Entry::Post(Post::new("short lived".to_string(), 1, alice.clone())))
    );
    assert_eq!(delete_post(&mut ledger, &address), Ok(()));
    assert_eq!(retrieve_posts(&ledger, &alice).len(), 1);
}

#[test]
fn delete_of_what_is_not_there_is_not_found() {
    let mut ledger = Ledger::new();
    let nowhere = Address::from_bytes(vec![]);
    assert_eq!(delete_post(&mut ledger, &nowhere), Err(LedgerError::NotFound));
    assert!(!ledger.is_retired(&nowhere));
}

#[test]
fn agent_id_is_the_callers() {
    let alice = agent("alice");
    assert_eq!(get_agent_id(&alice), alice);
    assert_eq!(get_agent_id(&alice).key(), "alice");
}

#[test]
fn greeting() {
    assert_eq!(hello_holo(), "Hello Holo");
}

#[test]
fn only_a_post_is_a_linked_post() {
    let alice = agent("alice");
    let target = Address::from_bytes(vec![4, 2]);
    let post = Post::new("here".to_string(), 3, alice.clone());
    assert_eq!(
        linked_post(&target, Some(Entry::Post(post.clone()))),
        Some((target.clone(), post.clone()))
    );
    assert_eq!(linked_post(&target, None), None);
    assert_eq!(
        linked_post(&target, Some(Entry::InvalidPost(InvalidPost::new(post)))),
        None
    );
    assert_eq!(linked_post(&target, Some(Entry::AgentIndex(Agent::of(&alice)))), None);
}
