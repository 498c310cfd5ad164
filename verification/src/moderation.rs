//! The moderation policy: an author with more than three quarantined posts
//! is banned. The count never goes down, so a ban is for good.
//!
//! The policy can be read off two sources. The link index holds one
//! `InvalidPosts` link from the author's anchor for each quarantined post;
//! that count is the one the ledger goes by. An agent's own history, where
//! a runtime supplies it with a validation request, holds one link-creation
//! record for each of them; `banned` judges by that. Either way an author
//! of whom nothing is known has no violation.

use vstd::prelude::*;
use crate::address::{anchor, anchor_of};
use crate::links::{selected, Link, LinkIndex, LinkMatch, LinkType, LinkView};
use crate::types::{AgentAddress, Content, Entry, LedgerError};

verus! {

/// The number of quarantined posts that an author may have without being
/// banned.
pub const BAN_THRESHOLD: usize = 3;

/// One record of an agent's published history.
#[derive(Debug)]
pub enum ChainRecord {
    /// The agent published an entry.
    Entry(Entry),
    /// The agent added a link. `provenances` names those who signed the
    /// record, the first signer first.
    LinkAdd { link: Link, provenances: Vec<AgentAddress> },
    /// A record of any other kind.
    Other,
}

/// A record of an agent's history as a mathematical value.
pub ghost enum ChainRecordView {
    Entry(Content),
    LinkAdd { link: LinkView, provenances: Seq<Seq<char>> },
    Other,
}

impl View for ChainRecord {
    type V = ChainRecordView;

    open spec fn view(&self) -> ChainRecordView {
        match self {
            ChainRecord::Entry(entry) => ChainRecordView::Entry(entry@),
            ChainRecord::LinkAdd { link, provenances } => ChainRecordView::LinkAdd {
                link: link@,
                provenances: provenances@.map_values(|agent: AgentAddress| agent@),
            },
            ChainRecord::Other => ChainRecordView::Other,
        }
    }
}

/// A history as a sequence of mathematical values.
pub open spec fn history_view(history: Seq<ChainRecord>) -> Seq<ChainRecordView> {
    history.map_values(|record: ChainRecord| record@)
}

/// Whether the record is evidence of a quarantined post of the author: a
/// link of type `InvalidPosts` whose first signer is the author.
pub open spec fn is_violation(record: ChainRecordView, author: Seq<char>) -> bool {
    match record {
        ChainRecordView::LinkAdd { link, provenances } => {
            &&& link.link_type == LinkType::InvalidPosts
            &&& provenances.len() > 0
            &&& provenances[0] == author
        },
        _ => false,
    }
}

/// The number of the author's quarantined posts that the history shows.
pub open spec fn violations_in_history(history: Seq<ChainRecordView>, author: Seq<char>) -> nat {
    history.filter(|record: ChainRecordView| is_violation(record, author)).len()
}

/// A supplied history as a mathematical value.
pub open spec fn snapshot_view(history: Option<Vec<ChainRecord>>) -> Option<Seq<ChainRecordView>> {
    match history {
        None => None,
        Some(records) => Some(history_view(records@)),
    }
}

/// The number of the author's quarantined posts that a snapshot of their
/// history shows. Where no snapshot was supplied there is no evidence, and
/// so no violation.
pub open spec fn violations_in_snapshot(
    history: Option<Seq<ChainRecordView>>,
    author: Seq<char>,
) -> nat {
    match history {
        None => 0,
        Some(records) => violations_in_history(records, author),
    }
}

/// Whether a snapshot of the author's history shows the author to be
/// banned.
pub open spec fn is_banned_by_history(
    history: Option<Seq<ChainRecordView>>,
    author: Seq<char>,
) -> bool {
    violations_in_snapshot(history, author) > BAN_THRESHOLD
}

/// The number of the author's quarantined posts that the link index shows.
pub open spec fn violations(links: Set<LinkView>, author: Seq<char>) -> nat {
    selected(links, anchor(author), LinkMatch::Exactly(LinkType::InvalidPosts), LinkMatch::Any).len()
}

/// Whether the link index shows the author to be banned.
pub open spec fn is_banned(links: Set<LinkView>, author: Seq<char>) -> bool {
    violations(links, author) > BAN_THRESHOLD
}

/// Whether the record is evidence of a quarantined post of the author.
fn record_is_violation(record: &ChainRecord, author: &AgentAddress) -> (hit: bool)
    ensures
        hit == is_violation(record@, author@),
{
    match record {
        ChainRecord::LinkAdd { link, provenances } => {
            if provenances.len() > 0 {
                link.link_type() == LinkType::InvalidPosts && provenances[0] == *author
            } else {
                false
            }
        },
        _ => false,
    }
}

/// Counts the author's quarantined posts in a history.
pub fn count_violations(history: &Vec<ChainRecord>, author: &AgentAddress) -> (count: usize)
    ensures
        count == violations_in_history(history_view(history@), author@),
{
    let ghost records = history_view(history@);
    let ghost pick = |record: ChainRecordView| is_violation(record, author@);
    let mut count: usize = 0;
    let mut i: usize = 0;
    proof {
        reveal(Seq::filter);
        assert(records.take(0) =~= Seq::<ChainRecordView>::empty());
    }
    while i < history.len()
        invariant
            i <= history.len(),
            records == history_view(history@),
            pick == |record: ChainRecordView| is_violation(record, author@),
            count <= i,
            count == records.take(i as int).filter(pick).len(),
        decreases history.len() - i,
    {
        let hit = record_is_violation(&history[i], author);
        proof {
            reveal(Seq::filter);
            assert(records.take(i + 1).drop_last() =~= records.take(i as int));
            assert(records.take(i + 1).last() == history@[i as int]@);
        }
        if hit {
            count += 1;
        }
        i += 1;
    }
    assert(records.take(i as int) =~= records);
    count
}

/// Judges an author by a snapshot of their history: banned when it shows
/// more than `BAN_THRESHOLD` quarantined posts. Where no snapshot was
/// supplied there is no evidence against the author, who is then not
/// banned.
pub fn banned(agent_id: &AgentAddress, history: &Option<Vec<ChainRecord>>) -> (verdict: Result<
    (),
    LedgerError,
>)
    ensures
        verdict == if is_banned_by_history(snapshot_view(*history), agent_id@) {
            Err::<(), LedgerError>(LedgerError::AuthorBanned)
        } else {
            Ok(())
        },
{
    match history {
        None => Ok(()),
        Some(records) => {
            if count_violations(records, agent_id) > BAN_THRESHOLD {
                Err(LedgerError::AuthorBanned)
            } else {
                Ok(())
            }
        },
    }
}

/// Judges an author by the link index: banned when more than
/// `BAN_THRESHOLD` links of type `InvalidPosts` leave their anchor. An
/// author of whom the index holds nothing has no violation.
pub fn banned_in_index(agent_id: &AgentAddress, index: &LinkIndex) -> (verdict: Result<
    (),
    LedgerError,
>)
    requires
        index.wf(),
    ensures
        verdict == if is_banned(index@, agent_id@) {
            Err::<(), LedgerError>(LedgerError::AuthorBanned)
        } else {
            Ok(())
        },
{
    let base = anchor_of(agent_id);
    let count: usize = index.count_links(
        &base,
        &LinkMatch::Exactly(LinkType::InvalidPosts),
        &LinkMatch::Any,
    );
    if count > BAN_THRESHOLD {
        Err(LedgerError::AuthorBanned)
    } else {
        Ok(())
    }
}

} // verus!
