//! The ledger: the entry store and the link index behind one door, with
//! the validation engine called before anything is written.

use vstd::prelude::*;
use crate::address::{anchor, digest, Address};
use crate::links::{
    selected, tag_filter, link_views, Link, LinkIndex, LinkMatch, LinkType, LinkView,
};
use crate::moderation::is_banned;
use crate::store::{addressed, EntryStore};
use crate::types::{Content, Entry, LedgerError, Operation, MAX_MESSAGE_LEN};
use crate::validation::{entry_verdict, validate_entry, validate_link};

verus! {

/// The state of a ledger as a mathematical value.
pub ghost struct LedgerView {
    /// What each address resolves to.
    pub entries: Map<Seq<u8>, Content>,
    /// The links, as a set: no link is there twice.
    pub links: Set<LinkView>,
    /// The addresses on which a deletion was recorded.
    pub retired: Set<Seq<u8>>,
}

/// The ledger that holds nothing.
pub open spec fn empty_ledger() -> LedgerView {
    LedgerView { entries: Map::empty(), links: Set::empty(), retired: Set::empty() }
}

/// Whether a content is as the public record admits it: a post with a
/// message of at most `MAX_MESSAGE_LEN` characters, a quarantine record
/// around a longer one, or an anchor.
pub open spec fn admissible(content: Content) -> bool {
    match content {
        Content::Post(post) => post.message.len() <= MAX_MESSAGE_LEN,
        Content::InvalidPost(post) => post.message.len() > MAX_MESSAGE_LEN,
        Content::AgentIndex(_) => true,
    }
}

/// What holds of every state that a ledger can be in: every record sits
/// under the address of its content, every record is admissible, and the
/// ledger is finite.
pub open spec fn sound(state: LedgerView) -> bool {
    &&& state.entries.dom().finite()
    &&& state.links.finite()
    &&& state.retired.finite()
    &&& addressed(state.entries)
    &&& forall|address: Seq<u8>|
        state.entries.dom().contains(address) ==> admissible(#[trigger] state.entries[address])
}

/// Where there is no link, no one is banned.
pub proof fn lemma_empty_bans_no_one(agent: Seq<char>)
    ensures
        !is_banned(Set::empty(), agent),
{
    assert(selected(
        Set::<LinkView>::empty(),
        anchor(agent),
        LinkMatch::Exactly(LinkType::InvalidPosts),
        LinkMatch::Any,
    ) =~= Set::<LinkView>::empty());
}

/// What `put` returns: the address of the content, or the engine's reason
/// to refuse its creation.
pub open spec fn put_outcome(state: LedgerView, content: Content) -> Result<Seq<u8>, LedgerError> {
    match entry_verdict(Operation::Create, content, state.links) {
        Ok(_) => Ok(digest(content)),
        Err(error) => Err(error),
    }
}

/// The state after `put`: with the record if it was accepted, unchanged if
/// it was refused.
pub open spec fn after_put(state: LedgerView, content: Content) -> LedgerView {
    if put_outcome(state, content) is Ok {
        LedgerView { entries: state.entries.insert(digest(content), content), ..state }
    } else {
        state
    }
}

/// What `update` returns: `NotFound` where the address does not resolve,
/// `ImmutableRecord` where it resolves to a quarantine record, else the
/// engine's reason to refuse the modification, else the address of the new
/// content.
pub open spec fn update_outcome(state: LedgerView, address: Seq<u8>, content: Content) -> Result<
    Seq<u8>,
    LedgerError,
> {
    if !state.entries.dom().contains(address) {
        Err(LedgerError::NotFound)
    } else if state.entries[address] is InvalidPost {
        Err(LedgerError::ImmutableRecord)
    } else {
        match entry_verdict(Operation::Modify, content, state.links) {
            Ok(_) => Ok(digest(content)),
            Err(error) => Err(error),
        }
    }
}

/// The state after `update`: with the new record if it was accepted,
/// unchanged if not. The old address resolves as before.
pub open spec fn after_update(state: LedgerView, address: Seq<u8>, content: Content) -> LedgerView {
    if update_outcome(state, address, content) is Ok {
        LedgerView { entries: state.entries.insert(digest(content), content), ..state }
    } else {
        state
    }
}

/// What `remove` returns: `NotFound` where the address does not resolve,
/// else the engine's verdict on deleting what it resolves to.
pub open spec fn remove_outcome(state: LedgerView, address: Seq<u8>) -> Result<(), LedgerError> {
    if !state.entries.dom().contains(address) {
        Err(LedgerError::NotFound)
    } else {
        entry_verdict(Operation::Delete, state.entries[address], state.links)
    }
}

/// The state after `remove`: the deletion is recorded if it was accepted.
/// The address resolves as before.
pub open spec fn after_remove(state: LedgerView, address: Seq<u8>) -> LedgerView {
    if remove_outcome(state, address) is Ok {
        LedgerView { retired: state.retired.insert(address), ..state }
    } else {
        state
    }
}

/// The state after `link`: with the link.
pub open spec fn after_link(state: LedgerView, link: LinkView) -> LedgerView {
    LedgerView { links: state.links.insert(link), ..state }
}

/// An entry store and a link index that are written only through
/// validation.
#[derive(Debug)]
pub struct Ledger {
    store: EntryStore,
    index: LinkIndex,
}

impl View for Ledger {
    type V = LedgerView;

    closed spec fn view(&self) -> LedgerView {
        LedgerView { entries: self.store@, links: self.index@, retired: self.store.retired() }
    }
}

impl Ledger {
    /// The invariant of the ledger.
    pub closed spec fn wf(&self) -> bool {
        &&& self.store.wf()
        &&& self.index.wf()
        &&& forall|address: Seq<u8>|
            self.store@.dom().contains(address) ==> admissible(#[trigger] self.store@[address])
    }

    /// The state of a well-formed ledger is sound.
    pub proof fn lemma_sound(&self)
        requires
            self.wf(),
        ensures
            sound(self@),
    {
        self.store.lemma_addressed();
        self.index.lemma_finite();
    }

    /// The ledger that holds nothing. No one is banned in it.
    pub fn new() -> (ledger: Self)
        ensures
            ledger.wf(),
            ledger@ == empty_ledger(),
            forall|agent: Seq<char>| !#[trigger] is_banned(ledger@.links, agent),
    {
        let ledger = Ledger { store: EntryStore::new(), index: LinkIndex::new() };
        assert forall|agent: Seq<char>| !#[trigger] is_banned(ledger@.links, agent) by {
            lemma_empty_bans_no_one(agent);
        }
        ledger
    }

    /// Stores a new record, if the validation engine accepts its creation,
    /// and returns its address. Storing a content that is there already
    /// returns the same address and changes nothing. A refused record is
    /// not stored.
    pub fn put(&mut self, entry: Entry) -> (outcome: Result<Address, LedgerError>)
        requires
            old(self).wf(),
        ensures
            final(self).wf(),
            final(self)@ == after_put(old(self)@, entry@),
            match outcome {
                Ok(address) => put_outcome(old(self)@, entry@) == Ok::<Seq<u8>, LedgerError>(
                    address@,
                ),
                Err(error) => put_outcome(old(self)@, entry@) == Err::<Seq<u8>, LedgerError>(error),
            },
    {
        match validate_entry(Operation::Create, &entry, &self.index) {
            Err(error) => Err(error),
            Ok(()) => Ok(self.store.insert(entry)),
        }
    }

    /// The record with the given address. An address that does not resolve
    /// gives `None`; that is no error.
    pub fn get(&self, address: &Address) -> (found: Option<Entry>)
        requires
            self.wf(),
        ensures
            match found {
                Some(entry) => self@.entries.dom().contains(address@) && entry@
                    == self@.entries[address@],
                None => !self@.entries.dom().contains(address@),
            },
    {
        self.store.get(address)
    }

    /// Submits `entry` as a modification of the record at `address` and
    /// returns the address of the new record. The old address goes on to
    /// resolve to the old record.
    pub fn update(&mut self, address: &Address, entry: Entry) -> (outcome: Result<
        Address,
        LedgerError,
    >)
        requires
            old(self).wf(),
        ensures
            final(self).wf(),
            final(self)@ == after_update(old(self)@, address@, entry@),
            match outcome {
                Ok(new_address) => update_outcome(old(self)@, address@, entry@) == Ok::<
                    Seq<u8>,
                    LedgerError,
                >(new_address@),
                Err(error) => update_outcome(old(self)@, address@, entry@) == Err::<
                    Seq<u8>,
                    LedgerError,
                >(error),
            },
    {
        match self.store.get(address) {
            None => Err(LedgerError::NotFound),
            Some(Entry::InvalidPost(_)) => Err(LedgerError::ImmutableRecord),
            Some(_) => match validate_entry(Operation::Modify, &entry, &self.index) {
                Err(error) => Err(error),
                Ok(()) => Ok(self.store.insert(entry)),
            },
        }
    }

    /// Submits the deletion of the record at `address`. An accepted
    /// deletion is recorded; the address goes on to resolve.
    pub fn remove(&mut self, address: &Address) -> (outcome: Result<(), LedgerError>)
        requires
            old(self).wf(),
        ensures
            final(self).wf(),
            final(self)@ == after_remove(old(self)@, address@),
            outcome == remove_outcome(old(self)@, address@),
    {
        match self.store.get(address) {
            None => Err(LedgerError::NotFound),
            Some(entry) => match validate_entry(Operation::Delete, &entry, &self.index) {
                Err(error) => Err(error),
                Ok(()) => {
                    self.store.retire(address.clone());
                    Ok(())
                },
            },
        }
    }

    /// Whether a deletion was recorded on the address.
    pub fn is_retired(&self, address: &Address) -> (retired: bool)
        ensures
            retired == self@.retired.contains(address@),
    {
        self.store.is_retired(address)
    }

    /// Adds a link from `base` to `target`. Link validation accepts every
    /// link, so this always succeeds; adding a link that is there already
    /// changes nothing.
    pub fn link(&mut self, base: &Address, target: &Address, link_type: LinkType, tag: String) -> (outcome:
        Result<(), LedgerError>)
        requires
            old(self).wf(),
        ensures
            final(self).wf(),
            outcome == Ok::<(), LedgerError>(()),
            final(self)@ == after_link(
                old(self)@,
                LinkView { base: base@, target: target@, link_type, tag: tag@ },
            ),
    {
        let link = Link::new(base.clone(), target.clone(), link_type, tag);
        match validate_link(&link) {
            Err(error) => Err(error),
            Ok(()) => {
                self.index.insert(link);
                Ok(())
            },
        }
    }

    /// The links from `base` that the two filters select, each once, in no
    /// particular order.
    pub fn get_links(&self, base: &Address, types: &LinkMatch<LinkType>, tags: &LinkMatch<String>) -> (found:
        Vec<Link>)
        requires
            self.wf(),
        ensures
            link_views(found@).no_duplicates(),
            link_views(found@).to_set() == selected(self@.links, base@, *types, tag_filter(tags)),
    {
        self.index.get_links(base, types, tags)
    }

    /// The number of links from `base` that the two filters select. It
    /// reads the ledger and changes nothing.
    pub fn count_links(&self, base: &Address, types: &LinkMatch<LinkType>, tags: &LinkMatch<String>) -> (count:
        usize)
        requires
            self.wf(),
        ensures
            count == selected(self@.links, base@, *types, tag_filter(tags)).len(),
    {
        self.index.count_links(base, types, tags)
    }
}

} // verus!
