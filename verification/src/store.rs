//! The entry store: records kept under the address of their content.

use vstd::prelude::*;
use crate::address::{address_of, digest, lemma_digest_injective, Address};
use crate::lists::lemma_push_absent;
use crate::types::{Content, Entry};

verus! {

/// A stored record with its address.
#[derive(Debug)]
struct Record {
    address: Address,
    entry: Entry,
}

/// The map from address to content that a list of records stands for.
spec fn record_map(records: Seq<Record>) -> Map<Seq<u8>, Content>
    decreases records.len(),
{
    if records.len() == 0 {
        Map::empty()
    } else {
        record_map(records.drop_last()).insert(records.last().address@, records.last().entry@)
    }
}

/// Every record is kept under the address of its content.
spec fn records_addressed(records: Seq<Record>) -> bool {
    forall|i: int| 0 <= i < records.len() ==> (#[trigger] records[i]).address@ == digest(records[i].entry@)
}

/// An address resolves if and only if a record has it, and then to that
/// record's content.
proof fn lemma_record_map(records: Seq<Record>, address: Seq<u8>)
    requires
        records_addressed(records),
    ensures
        record_map(records).dom().contains(address) <==> exists|i: int|
            0 <= i < records.len() && (#[trigger] records[i]).address@ == address,
        forall|i: int|
            0 <= i < records.len() && (#[trigger] records[i]).address@ == address ==> record_map(
                records,
            )[address] == records[i].entry@,
        record_map(records).dom().finite(),
    decreases records.len(),
{
    if records.len() > 0 {
        let front = records.drop_last();
        let last = records.last();
        assert forall|i: int| 0 <= i < front.len() implies (#[trigger] front[i]).address@ == digest(
            front[i].entry@,
        ) by {
            assert(front[i] == records[i]);
        }
        lemma_record_map(front, address);
        if record_map(records).dom().contains(address) {
            if last.address@ == address {
                assert(records[records.len() - 1].address@ == address);
            } else {
                let i = choose|i: int| 0 <= i < front.len() && (#[trigger] front[i]).address@ == address;
                assert(records[i].address@ == address);
            }
        }
        assert forall|i: int|
            0 <= i < records.len() && (#[trigger] records[i]).address@ == address implies record_map(
            records,
        )[address] == records[i].entry@ && record_map(records).dom().contains(address) by {
            if last.address@ == address {
                assert(records[records.len() - 1] == last);
                lemma_digest_injective(records[i].entry@, last.entry@);
            } else {
                assert(front[i] == records[i]);
            }
        }
    }
}

/// Content-addressed storage of records, with a note of those that were
/// deleted.
#[derive(Debug)]
pub struct EntryStore {
    records: Vec<Record>,
    retired: Vec<Address>,
}

/// The addresses of a list as mathematical values.
pub open spec fn address_views(addresses: Seq<Address>) -> Seq<Seq<u8>> {
    addresses.map_values(|address: Address| address@)
}

impl View for EntryStore {
    type V = Map<Seq<u8>, Content>;

    /// What each address resolves to.
    closed spec fn view(&self) -> Map<Seq<u8>, Content> {
        record_map(self.records@)
    }
}

impl EntryStore {
    /// The addresses on which a deletion was recorded.
    pub closed spec fn retired(&self) -> Set<Seq<u8>> {
        address_views(self.retired@).to_set()
    }

    /// The invariant of the store.
    pub closed spec fn wf(&self) -> bool {
        records_addressed(self.records@)
    }

    /// In a well-formed store every address is the address of what it
    /// resolves to, and finitely many addresses resolve.
    pub proof fn lemma_addressed(&self)
        requires
            self.wf(),
        ensures
            addressed(self@),
            self@.dom().finite(),
            self.retired().finite(),
    {
        assert forall|address: Seq<u8>| self@.dom().contains(address) implies digest(
            #[trigger] self@[address],
        ) == address by {
            lemma_record_map(self.records@, address);
            let i = choose|i: int|
                0 <= i < self.records@.len() && (#[trigger] self.records@[i]).address@ == address;
        }
        lemma_record_map(self.records@, Seq::empty());
        vstd::seq_lib::seq_to_set_is_finite(address_views(self.retired@));
    }

    /// The empty store.
    pub fn new() -> (store: Self)
        ensures
            store.wf(),
            store@ == Map::<Seq<u8>, Content>::empty(),
            store.retired() == Set::<Seq<u8>>::empty(),
    {
        let store = EntryStore { records: Vec::new(), retired: Vec::new() };
        assert(address_views(store.retired@) =~= Seq::<Seq<u8>>::empty());
        assert(store.retired() =~= Set::<Seq<u8>>::empty());
        store
    }

    /// The place of the record with the given address, if one is stored.
    fn find(&self, address: &Address) -> (place: Option<usize>)
        requires
            self.wf(),
        ensures
            match place {
                Some(i) => i < self.records@.len() && self.records@[i as int].address@ == address@
                    && self@.dom().contains(address@) && self@[address@]
                    == self.records@[i as int].entry@,
                None => !self@.dom().contains(address@),
            },
    {
        let mut i: usize = 0;
        while i < self.records.len()
            invariant
                self.wf(),
                i <= self.records.len(),
                forall|j: int| 0 <= j < i ==> (#[trigger] self.records@[j]).address@ != address@,
            decreases self.records.len() - i,
        {
            if self.records[i].address == *address {
                proof {
                    lemma_record_map(self.records@, address@);
                }
                return Some(i);
            }
            i += 1;
        }
        proof {
            lemma_record_map(self.records@, address@);
        }
        None
    }

    /// Whether the address resolves.
    pub fn contains(&self, address: &Address) -> (found: bool)
        requires
            self.wf(),
        ensures
            found == self@.dom().contains(address@),
    {
        self.find(address).is_some()
    }

    /// The record with the given address. An address that no record has
    /// resolves to nothing; that is no error.
    pub fn get(&self, address: &Address) -> (found: Option<Entry>)
        requires
            self.wf(),
        ensures
            match found {
                Some(entry) => self@.dom().contains(address@) && entry@ == self@[address@],
                None => !self@.dom().contains(address@),
            },
    {
        match self.find(address) {
            Some(i) => Some(self.records[i].entry.clone()),
            None => None,
        }
    }

    /// Stores the record under the address of its content and returns that
    /// address. Storing a content that is there already changes nothing.
    pub fn insert(&mut self, entry: Entry) -> (address: Address)
        requires
            old(self).wf(),
        ensures
            final(self).wf(),
            address@ == digest(entry@),
            final(self)@ == old(self)@.insert(address@, entry@),
            final(self).retired() == old(self).retired(),
    {
        let address = address_of(&entry);
        match self.find(&address) {
            Some(i) => {
                proof {
                    lemma_digest_injective(self.records@[i as int].entry@, entry@);
                    assert(self@ =~= old(self)@.insert(address@, entry@));
                }
            },
            None => {
                let ghost before = self.records@;
                let record = Record { address: address.clone(), entry };
                self.records.push(record);
                proof {
                    assert(self.records@.drop_last() =~= before);
                    assert forall|i: int| 0 <= i < self.records@.len() implies (
                    #[trigger] self.records@[i]).address@ == digest(self.records@[i].entry@) by {
                        if i < before.len() {
                            assert(self.records@[i] == before[i]);
                        }
                    }
                }
            },
        }
        address
    }

    /// Whether a deletion was recorded on the address.
    pub fn is_retired(&self, address: &Address) -> (retired: bool)
        ensures
            retired == self.retired().contains(address@),
    {
        let ghost views = address_views(self.retired@);
        let mut i: usize = 0;
        while i < self.retired.len()
            invariant
                i <= self.retired.len(),
                views == address_views(self.retired@),
                forall|j: int| 0 <= j < i ==> views[j] != address@,
            decreases self.retired.len() - i,
        {
            if self.retired[i] == *address {
                assert(views[i as int] == address@);
                return true;
            }
            i += 1;
        }
        false
    }

    /// Records a deletion on the address. What the address resolves to
    /// stays as it is.
    pub fn retire(&mut self, address: Address)
        requires
            old(self).wf(),
        ensures
            final(self).wf(),
            final(self)@ == old(self)@,
            final(self).retired() == old(self).retired().insert(address@),
    {
        if !self.is_retired(&address) {
            let ghost before = address_views(self.retired@);
            let ghost view = address@;
            self.retired.push(address);
            proof {
                assert(address_views(self.retired@) =~= before.push(view));
                lemma_push_absent(before, view);
                assert(self.retired() =~= old(self).retired().insert(view));
            }
        } else {
            assert(self.retired() =~= old(self).retired().insert(address@));
        }
    }
}

/// Every address in the map is the address of the content it resolves to.
pub open spec fn addressed(entries: Map<Seq<u8>, Content>) -> bool {
    forall|address: Seq<u8>| entries.dom().contains(address) ==> digest(#[trigger] entries[address]) == address
}

} // verus!
