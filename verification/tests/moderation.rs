use post_ledger::{
    anchor_of, banned, banned_in_index, count_violations, Address, Agent, AgentAddress,
    ChainRecord, Entry, LedgerError, Link, LinkIndex, LinkType,
};

fn agent(name: &str) -> AgentAddress {
    AgentAddress::new(name.to_string())
}

fn link_record(link_type: LinkType, signers: &[&str]) -> ChainRecord {
    ChainRecord::LinkAdd {
        link: Link::new(
            anchor_of(&agent("whoever")),
            Address::from_bytes(vec![7]),
            link_type,
            String::new(),
        ),
        provenances: signers.iter().map(|name| agent(name)).collect(),
    }
}

#[test]
fn history_counts_only_the_authors_quarantine_links() {
    let history = vec![
        link_record(LinkType::InvalidPosts, &["alice"]),
        link_record(LinkType::AuthorPost, &["alice"]),
        link_record(LinkType::InvalidPosts, &["bob"]),
        link_record(LinkType::InvalidPosts, &["bob", "alice"]),
        link_record(LinkType::InvalidPosts, &["alice", "bob"]),
        link_record(LinkType::InvalidPosts, &[]),
        ChainRecord::Entry(Entry::AgentIndex(Agent::new("alice".to_string()))),
        ChainRecord::Other,
        link_record(LinkType::InvalidPosts, &["alice"]),
    ];
    assert_eq!(count_violations(&history, &agent("alice")), 3);
    assert_eq!(count_violations(&history, &agent("bob")), 2);
    assert_eq!(count_violations(&history, &agent("carol")), 0);
    assert_eq!(count_violations(&Vec::new(), &agent("alice")), 0);
}

#[test]
fn banned_needs_more_than_three() {
    let alice = agent("alice");
    let mut history: Vec<ChainRecord> = Vec::new();
    for expected in 0..=3usize {
        assert_eq!(count_violations(&history, &alice), expected);
        let snapshot = Some(history);
        assert_eq!(banned(&alice, &snapshot), Ok(()));
        history = snapshot.unwrap();
        history.push(link_record(LinkType::InvalidPosts, &["alice"]));
    }
    let snapshot = Some(history);
    assert_eq!(banned(&alice, &snapshot), Err(LedgerError::AuthorBanned));
    assert_eq!(banned(&agent("bob"), &snapshot), Ok(()));
}

#[test]
fn banned_without_history() {
    assert_eq!(banned(&agent("alice"), &None), Ok(()));
    assert_eq!(banned(&agent("alice"), &Some(Vec::new())), Ok(()));
}

#[test]
fn index_counts_links_from_the_authors_anchor() {
    let alice = agent("alice");
    let bob = agent("bob");
    let mut index = LinkIndex::new();
    assert_eq!(banned_in_index(&alice, &index), Ok(()));
    for i in 0..4u8 {
        assert_eq!(banned_in_index(&alice, &index), Ok(()));
        index.insert(Link::new(
            anchor_of(&alice),
            Address::from_bytes(vec![i]),
            LinkType::InvalidPosts,
            String::new(),
        ));
        // None of these counts against her.
        index.insert(Link::new(
            anchor_of(&alice),
            Address::from_bytes(vec![i]),
            LinkType::AuthorPost,
            String::new(),
        ));
        index.insert(Link::new(
            anchor_of(&bob),
            Address::from_bytes(vec![i]),
            LinkType::InvalidPosts,
            String::new(),
        ));
    }
    assert_eq!(banned_in_index(&alice, &index), Err(LedgerError::AuthorBanned));
    assert_eq!(banned_in_index(&bob, &index), Err(LedgerError::AuthorBanned));
    assert_eq!(banned_in_index(&agent("carol"), &index), Ok(()));
}

#[test]
fn index_counts_a_link_once_but_each_tag() {
    let alice = agent("alice");
    let mut index = LinkIndex::new();
    for _ in 0..5 {
        index.insert(Link::new(
            anchor_of(&alice),
            Address::from_bytes(vec![1]),
            LinkType::InvalidPosts,
            String::new(),
        ));
    }
    assert_eq!(banned_in_index(&alice, &index), Ok(()));
    for tag in ["a", "b", "c"] {
        index.insert(Link::new(
            anchor_of(&alice),
            Address::from_bytes(vec![1]),
            LinkType::InvalidPosts,
            tag.to_string(),
        ));
    }
    assert_eq!(banned_in_index(&alice, &index), Err(LedgerError::AuthorBanned));
}
