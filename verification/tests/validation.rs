use post_ledger::{
    anchor_of, init, needs_history, too_long, validate_agent, validate_entry,
    validate_entry_by_history, validate_invalid_post, validate_link, validate_post,
    validate_post_by_history, Address, Agent, AgentAddress, ChainRecord, Entry, InvalidPost,
    LedgerError, Link, LinkIndex, LinkType, Operation, Post,
};

fn agent(name: &str) -> AgentAddress {
    AgentAddress::new(name.to_string())
}

fn text(len: usize) -> String {
    "m".repeat(len)
}

fn post(len: usize, author: &str) -> Post {
    Post::new(text(len), 1, agent(author))
}

fn index_with_violations(author: &str, count: u8) -> LinkIndex {
    let mut index = LinkIndex::new();
    for i in 0..count {
        index.insert(Link::new(
            anchor_of(&agent(author)),
            Address::from_bytes(vec![i]),
            LinkType::InvalidPosts,
            String::new(),
        ));
    }
    index
}

fn violation(signer: &str) -> ChainRecord {
    ChainRecord::LinkAdd {
        link: Link::new(
            anchor_of(&agent(signer)),
            Address::from_bytes(vec![0]),
            LinkType::InvalidPosts,
            String::new(),
        ),
        provenances: vec![agent(signer)],
    }
}

#[test]
fn init_succeeds() {
    assert_eq!(init(), Ok(()));
}

#[test]
fn too_long_boundary() {
    assert_eq!(too_long(String::new()), Ok(()));
    assert_eq!(too_long(text(139)), Ok(()));
    assert_eq!(too_long(text(140)), Ok(()));
    assert_eq!(too_long(text(141)), Err(LedgerError::TooLong));
    assert_eq!(too_long(text(10_000)), Err(LedgerError::TooLong));
}

#[test]
fn post_create_and_modify_check_length_then_ban() {
    let clean = LinkIndex::new();
    let three = index_with_violations("alice", 3);
    let four = index_with_violations("alice", 4);
    for operation in [Operation::Create, Operation::Modify] {
        assert_eq!(validate_post(operation, &post(140, "alice"), &clean), Ok(()));
        assert_eq!(
            validate_post(operation, &post(141, "alice"), &clean),
            Err(LedgerError::TooLong)
        );
        assert_eq!(validate_post(operation, &post(10, "alice"), &three), Ok(()));
        assert_eq!(
            validate_post(operation, &post(10, "alice"), &four),
            Err(LedgerError::AuthorBanned)
        );
        assert_eq!(
            validate_post(operation, &post(141, "alice"), &four),
            Err(LedgerError::TooLong)
        );
        assert_eq!(validate_post(operation, &post(10, "bob"), &four), Ok(()));
    }
}

#[test]
fn post_delete_is_always_accepted() {
    let four = index_with_violations("alice", 4);
    assert_eq!(validate_post(Operation::Delete, &post(10, "alice"), &four), Ok(()));
    assert_eq!(validate_post(Operation::Delete, &post(500, "alice"), &four), Ok(()));
    assert_eq!(
        validate_post_by_history(Operation::Delete, &post(500, "alice"), &None),
        Ok(())
    );
}

#[test]
fn post_judged_by_history() {
    let three: Vec<ChainRecord> = (0..3).map(|_| violation("alice")).collect();
    let four: Vec<ChainRecord> = (0..4).map(|_| violation("alice")).collect();
    for operation in [Operation::Create, Operation::Modify] {
        assert_eq!(
            validate_post_by_history(operation, &post(141, "alice"), &None),
            Err(LedgerError::TooLong)
        );
        assert_eq!(
            validate_post_by_history(operation, &post(140, "alice"), &None),
            Ok(())
        );
        assert_eq!(validate_post_by_history(operation, &post(0, "alice"), &None), Ok(()));
        assert_eq!(
            validate_post_by_history(operation, &post(140, "alice"), &Some(Vec::new())),
            Ok(())
        );
    }
    let three = Some(three);
    let four = Some(four);
    assert_eq!(validate_post_by_history(Operation::Create, &post(1, "alice"), &three), Ok(()));
    assert_eq!(
        validate_post_by_history(Operation::Create, &post(1, "alice"), &four),
        Err(LedgerError::AuthorBanned)
    );
    assert_eq!(
        validate_post_by_history(Operation::Create, &post(200, "alice"), &four),
        Err(LedgerError::TooLong)
    );
    assert_eq!(validate_post_by_history(Operation::Create, &post(1, "bob"), &four), Ok(()));
}

#[test]
fn invalid_post_rules() {
    let short = InvalidPost::new(post(140, "alice"));
    let long = InvalidPost::new(post(141, "alice"));
    assert_eq!(
        validate_invalid_post(Operation::Create, &short),
        Err(LedgerError::NotActuallyInvalid)
    );
    assert_eq!(
        validate_invalid_post(Operation::Create, &InvalidPost::new(post(0, "alice"))),
        Err(LedgerError::NotActuallyInvalid)
    );
    assert_eq!(validate_invalid_post(Operation::Create, &long), Ok(()));
    for record in [&short, &long] {
        assert_eq!(
            validate_invalid_post(Operation::Modify, record),
            Err(LedgerError::ImmutableRecord)
        );
        assert_eq!(
            validate_invalid_post(Operation::Delete, record),
            Err(LedgerError::ImmutableRecord)
        );
    }
}

#[test]
fn agent_is_always_accepted() {
    let anchor = Agent::new("alice".to_string());
    for operation in [Operation::Create, Operation::Modify, Operation::Delete] {
        assert_eq!(validate_agent(operation, &anchor), Ok(()));
        assert_eq!(
            validate_entry(operation, &Entry::AgentIndex(anchor.clone()), &LinkIndex::new()),
            Ok(())
        );
    }
}

#[test]
fn links_are_always_accepted() {
    let base = anchor_of(&agent("alice"));
    let target = Address::from_bytes(vec![1]);
    for link_type in [LinkType::AuthorPost, LinkType::InvalidPosts] {
        let link = Link::new(base.clone(), target.clone(), link_type, "any tag".to_string());
        assert_eq!(validate_link(&link), Ok(()));
    }
}

#[test]
fn entries_are_judged_by_their_kind() {
    let four = index_with_violations("alice", 4);
    assert_eq!(
        validate_entry(Operation::Create, &Entry::Post(post(5, "alice")), &four),
        Err(LedgerError::AuthorBanned)
    );
    assert_eq!(
        validate_entry(Operation::Create, &Entry::Post(post(141, "bob")), &four),
        Err(LedgerError::TooLong)
    );
    assert_eq!(
        validate_entry(
            Operation::Create,
            &Entry::InvalidPost(InvalidPost::new(post(5, "alice"))),
            &four
        ),
        Err(LedgerError::NotActuallyInvalid)
    );
    assert_eq!(
        validate_entry(
            Operation::Create,
            &Entry::InvalidPost(InvalidPost::new(post(141, "alice"))),
            &four
        ),
        Ok(())
    );
    assert_eq!(
        validate_entry(
            Operation::Delete,
            &Entry::InvalidPost(InvalidPost::new(post(141, "alice"))),
            &four
        ),
        Err(LedgerError::ImmutableRecord)
    );
    assert_eq!(validate_entry(Operation::Delete, &Entry::Post(post(5, "alice")), &four), Ok(()));
}

#[test]
fn history_is_needed_only_for_short_posts() {
    let short = Entry::Post(post(140, "alice"));
    let long = Entry::Post(post(141, "alice"));
    let quarantined = Entry::InvalidPost(InvalidPost::new(post(141, "alice")));
    let anchor = Entry::AgentIndex(Agent::new("alice".to_string()));
    assert!(needs_history(Operation::Create, &short));
    assert!(needs_history(Operation::Modify, &short));
    assert!(!needs_history(Operation::Delete, &short));
    for operation in [Operation::Create, Operation::Modify, Operation::Delete] {
        assert!(!needs_history(operation, &long));
        assert!(!needs_history(operation, &quarantined));
        assert!(!needs_history(operation, &anchor));
        for entry in [&long, &quarantined, &anchor] {
            let four: Vec<ChainRecord> = (0..4).map(|_| violation("alice")).collect();
            assert_eq!(
                validate_entry_by_history(operation, entry, &None),
                validate_entry_by_history(operation, entry, &Some(four))
            );
        }
    }
}

#[test]
fn entries_judged_by_history() {
    let four: Vec<ChainRecord> = (0..4).map(|_| violation("alice")).collect();
    let four = Some(four);
    assert_eq!(
        validate_entry_by_history(Operation::Create, &Entry::Post(post(5, "alice")), &four),
        Err(LedgerError::AuthorBanned)
    );
    assert_eq!(
        validate_entry_by_history(Operation::Modify, &Entry::Post(post(5, "alice")), &None),
        Ok(())
    );
    assert_eq!(
        validate_entry_by_history(Operation::Create, &Entry::Post(post(141, "alice")), &None),
        Err(LedgerError::TooLong)
    );
    assert_eq!(
        validate_entry_by_history(Operation::Delete, &Entry::Post(post(5, "alice")), &None),
        Ok(())
    );
    assert_eq!(
        validate_entry_by_history(
            Operation::Create,
            &Entry::InvalidPost(InvalidPost::new(post(5, "alice"))),
            &four
        ),
        Err(LedgerError::NotActuallyInvalid)
    );
    assert_eq!(
        validate_entry_by_history(
            Operation::Modify,
            &Entry::InvalidPost(InvalidPost::new(post(500, "alice"))),
            &four
        ),
        Err(LedgerError::ImmutableRecord)
    );
    assert_eq!(
        validate_entry_by_history(
            Operation::Delete,
            &Entry::AgentIndex(Agent::new("alice".to_string())),
            &four
        ),
        Ok(())
    );
}
