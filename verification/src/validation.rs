//! The validation engine: one deterministic verdict for each kind of entry
//! and each operation on it. Whoever judges the same data reaches the same
//! verdict, because each verdict is a function of what is handed in.

use vstd::prelude::*;
use vstd::string::StrSliceExecFns;
use crate::links::{Link, LinkIndex, LinkView};
use crate::moderation::{
    banned, banned_in_index, is_banned, is_banned_by_history, snapshot_view, ChainRecord,
    ChainRecordView,
};
use crate::types::{
    Agent, Content, Entry, InvalidPost, LedgerError, Operation, Post, PostView, MAX_MESSAGE_LEN,
};

verus! {

/// The verdict on a message by its length alone.
pub open spec fn length_verdict(message: Seq<char>) -> Result<(), LedgerError> {
    if message.len() > MAX_MESSAGE_LEN {
        Err(LedgerError::TooLong)
    } else {
        Ok(())
    }
}

/// The verdict on a post, given whether moderation finds its author banned:
/// creating or modifying one is refused for an over-long message first, for
/// a banned author second; deleting one is always accepted.
pub open spec fn post_verdict(operation: Operation, post: PostView, author_banned: bool) -> Result<
    (),
    LedgerError,
> {
    match operation {
        Operation::Delete => Ok(()),
        _ => if post.message.len() > MAX_MESSAGE_LEN {
            Err(LedgerError::TooLong)
        } else if author_banned {
            Err(LedgerError::AuthorBanned)
        } else {
            Ok(())
        },
    }
}

/// The verdict on a quarantine record: it may be created only around a post
/// that is in fact too long, and never be modified or deleted.
pub open spec fn invalid_post_verdict(operation: Operation, post: PostView) -> Result<
    (),
    LedgerError,
> {
    match operation {
        Operation::Create => if post.message.len() <= MAX_MESSAGE_LEN {
            Err(LedgerError::NotActuallyInvalid)
        } else {
            Ok(())
        },
        _ => Err(LedgerError::ImmutableRecord),
    }
}

/// The verdict on an entry of any kind, with the link index as the source
/// of the author's violations.
pub open spec fn entry_verdict(operation: Operation, content: Content, links: Set<LinkView>) -> Result<
    (),
    LedgerError,
> {
    match content {
        Content::Post(post) => post_verdict(operation, post, is_banned(links, post.author)),
        Content::InvalidPost(post) => invalid_post_verdict(operation, post),
        Content::AgentIndex(_) => Ok(()),
    }
}

/// The verdict on a post where the author is judged by a snapshot of their
/// history: the same rule, with the snapshot as the source of the author's
/// violations. Where no snapshot was supplied the author has none.
pub open spec fn post_verdict_by_history(
    operation: Operation,
    post: PostView,
    history: Option<Seq<ChainRecordView>>,
) -> Result<(), LedgerError> {
    post_verdict(operation, post, is_banned_by_history(history, post.author))
}

/// The verdict on an entry of any kind, with a snapshot of the author's
/// history as the source of their violations.
pub open spec fn entry_verdict_by_history(
    operation: Operation,
    content: Content,
    history: Option<Seq<ChainRecordView>>,
) -> Result<(), LedgerError> {
    match content {
        Content::Post(post) => post_verdict_by_history(operation, post, history),
        Content::InvalidPost(post) => invalid_post_verdict(operation, post),
        Content::AgentIndex(_) => Ok(()),
    }
}

/// Called once when the ledger's rules are installed. There is nothing to
/// set up, so it always succeeds.
pub fn init() -> (outcome: Result<(), LedgerError>)
    ensures
        outcome == Ok::<(), LedgerError>(()),
{
    Ok(())
}

/// Refuses a message of more than `MAX_MESSAGE_LEN` characters.
pub fn too_long(message: String) -> (verdict: Result<(), LedgerError>)
    ensures
        verdict == length_verdict(message@),
{
    if message.as_str().unicode_len() > MAX_MESSAGE_LEN {
        Err(LedgerError::TooLong)
    } else {
        Ok(())
    }
}

/// Judges an operation on a post, counting the author's violations in the
/// link index.
pub fn validate_post(operation: Operation, post: &Post, index: &LinkIndex) -> (verdict: Result<
    (),
    LedgerError,
>)
    requires
        index.wf(),
    ensures
        verdict == post_verdict(operation, post@, is_banned(index@, post@.author)),
{
    match operation {
        Operation::Delete => Ok(()),
        _ => match too_long(post.message().clone()) {
            Err(error) => Err(error),
            Ok(()) => banned_in_index(post.author_id(), index),
        },
    }
}

/// Judges an operation on a post, counting the author's violations in the
/// snapshot of their history that came with the request.
pub fn validate_post_by_history(
    operation: Operation,
    post: &Post,
    history: &Option<Vec<ChainRecord>>,
) -> (verdict: Result<(), LedgerError>)
    ensures
        verdict == post_verdict_by_history(operation, post@, snapshot_view(*history)),
{
    match operation {
        Operation::Delete => Ok(()),
        _ => match too_long(post.message().clone()) {
            Err(error) => Err(error),
            Ok(()) => banned(post.author_id(), history),
        },
    }
}

/// Judges an operation on a quarantine record.
pub fn validate_invalid_post(operation: Operation, invalid: &InvalidPost) -> (verdict: Result<
    (),
    LedgerError,
>)
    ensures
        verdict == invalid_post_verdict(operation, invalid@),
{
    match operation {
        Operation::Create => match too_long(invalid.post().message().clone()) {
            Ok(()) => Err(LedgerError::NotActuallyInvalid),
            Err(_) => Ok(()),
        },
        _ => Err(LedgerError::ImmutableRecord),
    }
}

/// Judges an operation on an anchor record. An anchor makes no claim that
/// could be checked, so every operation on it is accepted.
pub fn validate_agent(operation: Operation, agent: &Agent) -> (verdict: Result<(), LedgerError>)
    ensures
        verdict == Ok::<(), LedgerError>(()),
{
    Ok(())
}

/// Judges a link. The entries at its ends carry the checks that matter, so
/// every link is accepted.
pub fn validate_link(link: &Link) -> (verdict: Result<(), LedgerError>)
    ensures
        verdict == Ok::<(), LedgerError>(()),
{
    Ok(())
}

/// Judges an operation on an entry by the rule of its kind.
pub fn validate_entry(operation: Operation, entry: &Entry, index: &LinkIndex) -> (verdict: Result<
    (),
    LedgerError,
>)
    requires
        index.wf(),
    ensures
        verdict == entry_verdict(operation, entry@, index@),
{
    match entry {
        Entry::Post(post) => validate_post(operation, post, index),
        Entry::InvalidPost(invalid) => validate_invalid_post(operation, invalid),
        Entry::AgentIndex(agent) => validate_agent(operation, agent),
    }
}

/// Whether the verdict on the operation depends on the author's history:
/// only that on creating or modifying a post whose message is not too
/// long. In every other case any history, or none, gives the same verdict,
/// so that none need be fetched.
pub fn needs_history(operation: Operation, entry: &Entry) -> (needed: bool)
    ensures
        needed == (entry@ is Post && operation != Operation::Delete && entry@->Post_0.message.len()
            <= MAX_MESSAGE_LEN),
        !needed ==> forall|history: Option<Seq<ChainRecordView>>|
            #[trigger] entry_verdict_by_history(operation, entry@, history)
                == entry_verdict_by_history(operation, entry@, None),
{
    match (entry, operation) {
        (Entry::Post(_), Operation::Delete) => false,
        (Entry::Post(post), _) => too_long(post.message().clone()).is_ok(),
        _ => false,
    }
}

/// Judges an operation on an entry by the rule of its kind, with the
/// snapshot of the author's history that came with the request. Only the
/// rule for posts looks at the history.
pub fn validate_entry_by_history(
    operation: Operation,
    entry: &Entry,
    history: &Option<Vec<ChainRecord>>,
) -> (verdict: Result<(), LedgerError>)
    ensures
        verdict == entry_verdict_by_history(operation, entry@, snapshot_view(*history)),
{
    match entry {
        Entry::Post(post) => validate_post_by_history(operation, post, history),
        Entry::InvalidPost(invalid) => validate_invalid_post(operation, invalid),
        Entry::AgentIndex(agent) => validate_agent(operation, agent),
    }
}

} // verus!
