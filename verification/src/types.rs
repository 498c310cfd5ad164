//! The records of the ledger and their mathematical views.

use vstd::prelude::*;

verus! {

/// The longest message, in characters, that a post may carry.
pub const MAX_MESSAGE_LEN: usize = 140;

/// Why an operation was refused.
#[derive(Clone, Copy, Debug, PartialEq, Eq, Structural)]
pub enum LedgerError {
    /// The message of a post exceeds `MAX_MESSAGE_LEN` characters.
    TooLong,
    /// A quarantine record wraps a post that would have been accepted.
    NotActuallyInvalid,
    /// A quarantine record was to be modified or deleted.
    ImmutableRecord,
    /// The author has exceeded the violation threshold.
    AuthorBanned,
    /// The operation targets an address that does not resolve.
    NotFound,
    /// The collaborator that stores the records failed.
    StoreUnavailable,
}

/// The reason for a refusal, in words.
pub open spec fn reason_text(error: LedgerError) -> Seq<char> {
    match error {
        LedgerError::TooLong => "Post is too long"@,
        LedgerError::NotActuallyInvalid => "Invalid post is actually valid"@,
        LedgerError::ImmutableRecord => "Modifying or deleting an invalid post is not possible"@,
        LedgerError::AuthorBanned => "This agent is banned"@,
        LedgerError::NotFound => "No entry at this address"@,
        LedgerError::StoreUnavailable => "The store is not available"@,
    }
}

impl LedgerError {
    /// The reason for the refusal, in words.
    pub fn reason(&self) -> (text: String)
        ensures
            text@ == reason_text(*self),
    {
        match self {
            LedgerError::TooLong => "Post is too long".to_owned(),
            LedgerError::NotActuallyInvalid => "Invalid post is actually valid".to_owned(),
            LedgerError::ImmutableRecord => "Modifying or deleting an invalid post is not possible".to_owned(),
            LedgerError::AuthorBanned => "This agent is banned".to_owned(),
            LedgerError::NotFound => "No entry at this address".to_owned(),
            LedgerError::StoreUnavailable => "The store is not available".to_owned(),
        }
    }
}

/// The kind of operation that a validation judges.
#[derive(Clone, Copy, Debug, PartialEq, Eq, Structural)]
pub enum Operation {
    Create,
    Modify,
    Delete,
}

/// The identity of a participant, as the runtime names it.
#[derive(Debug)]
pub struct AgentAddress {
    key: String,
}

impl View for AgentAddress {
    type V = Seq<char>;

    closed spec fn view(&self) -> Seq<char> {
        self.key@
    }
}

impl Clone for AgentAddress {
    fn clone(&self) -> (copy: Self)
        ensures
            copy@ == self@,
    {
        AgentAddress { key: self.key.clone() }
    }
}

impl AgentAddress {
    pub fn new(key: String) -> (agent: Self)
        ensures
            agent@ == key@,
    {
        AgentAddress { key }
    }

    /// The agent's name as text.
    pub fn key(&self) -> (key: &String)
        ensures
            key@ == self@,
    {
        &self.key
    }

}

impl PartialEq for AgentAddress {
    fn eq(&self, other: &Self) -> (equal: bool) {
        self.key == other.key
    }
}

impl Eq for AgentAddress {

}

impl vstd::std_specs::cmp::PartialEqSpecImpl for AgentAddress {
    open spec fn obeys_eq_spec() -> bool {
        true
    }

    open spec fn eq_spec(&self, other: &Self) -> bool {
        self@ == other@
    }
}

/// What a post says, by whom and when.
pub ghost struct PostView {
    pub message: Seq<char>,
    pub timestamp: u64,
    pub author: Seq<char>,
}

/// A short text published by an agent.
#[derive(Debug)]
pub struct Post {
    message: String,
    timestamp: u64,
    author_id: AgentAddress,
}

impl View for Post {
    type V = PostView;

    closed spec fn view(&self) -> PostView {
        PostView { message: self.message@, timestamp: self.timestamp, author: self.author_id@ }
    }
}

impl Clone for Post {
    fn clone(&self) -> (copy: Self)
        ensures
            copy@ == self@,
    {
        Post {
            message: self.message.clone(),
            timestamp: self.timestamp,
            author_id: self.author_id.clone(),
        }
    }
}

impl Post {
    pub fn new(message: String, timestamp: u64, author_id: AgentAddress) -> (post: Self)
        ensures
            post@ == (PostView { message: message@, timestamp, author: author_id@ }),
    {
        Post { message, timestamp, author_id }
    }

    pub fn message(&self) -> (message: &String)
        ensures
            message@ == self@.message,
    {
        &self.message
    }

    pub fn timestamp(&self) -> (timestamp: u64)
        ensures
            timestamp == self@.timestamp,
    {
        self.timestamp
    }

    pub fn author_id(&self) -> (author: &AgentAddress)
        ensures
            author@ == self@.author,
    {
        &self.author_id
    }
}

impl PartialEq for Post {
    fn eq(&self, other: &Self) -> (equal: bool) {
        self.message == other.message && self.timestamp == other.timestamp && self.author_id
            == other.author_id
    }
}

impl Eq for Post {

}

impl vstd::std_specs::cmp::PartialEqSpecImpl for Post {
    open spec fn obeys_eq_spec() -> bool {
        true
    }

    open spec fn eq_spec(&self, other: &Self) -> bool {
        self@ == other@
    }
}

/// The quarantine record of a post that was refused for its length.
#[derive(Debug)]
pub struct InvalidPost {
    post: Post,
}

impl View for InvalidPost {
    type V = PostView;

    closed spec fn view(&self) -> PostView {
        self.post@
    }
}

impl Clone for InvalidPost {
    fn clone(&self) -> (copy: Self)
        ensures
            copy@ == self@,
    {
        InvalidPost { post: self.post.clone() }
    }
}

impl InvalidPost {
    pub fn new(post: Post) -> (invalid: Self)
        ensures
            invalid@ == post@,
    {
        InvalidPost { post }
    }

    /// The post that was refused.
    pub fn post(&self) -> (post: &Post)
        ensures
            post@ == self@,
    {
        &self.post
    }
}

impl PartialEq for InvalidPost {
    fn eq(&self, other: &Self) -> (equal: bool) {
        self.post == other.post
    }
}

impl Eq for InvalidPost {

}

impl vstd::std_specs::cmp::PartialEqSpecImpl for InvalidPost {
    open spec fn obeys_eq_spec() -> bool {
        true
    }

    open spec fn eq_spec(&self, other: &Self) -> bool {
        self@ == other@
    }
}

/// The anchor record of an agent: the base of every link that concerns them.
#[derive(Debug)]
pub struct Agent {
    id: String,
}

impl View for Agent {
    type V = Seq<char>;

    closed spec fn view(&self) -> Seq<char> {
        self.id@
    }
}

impl Clone for Agent {
    fn clone(&self) -> (copy: Self)
        ensures
            copy@ == self@,
    {
        Agent { id: self.id.clone() }
    }
}

impl Agent {
    pub fn new(id: String) -> (agent: Self)
        ensures
            agent@ == id@,
    {
        Agent { id }
    }

    /// The anchor record of the agent with the given address.
    pub fn of(address: &AgentAddress) -> (agent: Self)
        ensures
            agent@ == address@,
    {
        Agent { id: address.key().clone() }
    }

    pub fn id(&self) -> (id: &String)
        ensures
            id@ == self@,
    {
        &self.id
    }
}

impl PartialEq for Agent {
    fn eq(&self, other: &Self) -> (equal: bool) {
        self.id == other.id
    }
}

impl Eq for Agent {

}

impl vstd::std_specs::cmp::PartialEqSpecImpl for Agent {
    open spec fn obeys_eq_spec() -> bool {
        true
    }

    open spec fn eq_spec(&self, other: &Self) -> bool {
        self@ == other@
    }
}

/// The content of a record: what its address is derived from.
pub ghost enum Content {
    Post(PostView),
    InvalidPost(PostView),
    AgentIndex(Seq<char>),
}

/// A record of the ledger.
#[derive(Debug)]
pub enum Entry {
    Post(Post),
    InvalidPost(InvalidPost),
    AgentIndex(Agent),
}

impl View for Entry {
    type V = Content;

    open spec fn view(&self) -> Content {
        match self {
            Entry::Post(post) => Content::Post(post@),
            Entry::InvalidPost(invalid) => Content::InvalidPost(invalid@),
            Entry::AgentIndex(agent) => Content::AgentIndex(agent@),
        }
    }
}

impl Clone for Entry {
    fn clone(&self) -> (copy: Self)
        ensures
            copy@ == self@,
    {
        match self {
            Entry::Post(post) => Entry::Post(post.clone()),
            Entry::InvalidPost(invalid) => Entry::InvalidPost(invalid.clone()),
            Entry::AgentIndex(agent) => Entry::AgentIndex(agent.clone()),
        }
    }
}

impl PartialEq for Entry {
    fn eq(&self, other: &Self) -> (equal: bool) {
        match (self, other) {
            (Entry::Post(a), Entry::Post(b)) => a == b,
            (Entry::InvalidPost(a), Entry::InvalidPost(b)) => a == b,
            (Entry::AgentIndex(a), Entry::AgentIndex(b)) => a == b,
            _ => false,
        }
    }
}

impl Eq for Entry {

}

impl vstd::std_specs::cmp::PartialEqSpecImpl for Entry {
    open spec fn obeys_eq_spec() -> bool {
        true
    }

    open spec fn eq_spec(&self, other: &Self) -> bool {
        self@ == other@
    }
}

} // verus!
