use vstd::prelude::*;
use crate::allocator::IdAllocator;
use crate::index::SecondaryIndex;
use crate::registry::types::{Category, ContractMetadata, ContractMetadataView};
use crate::table::Table;

verus! {

/// The registry's persistent state: the counter of contract identities, the
/// records by identity, the list of all identities and one list per category.
pub struct Storage {
    ids: IdAllocator,
    contracts: Table<u32, ContractMetadata>,
    all: Vec<u32>,
    by_category: SecondaryIndex<u32>,
}

/// What a [`Storage`] holds.
#[verifier::ext_equal]
pub ghost struct StorageView {
    pub counter: u32,
    pub records: Map<u32, ContractMetadataView>,
    pub all: Seq<u32>,
    pub by_category: Map<Category, Seq<u32>>,
}

impl View for Storage {
    type V = StorageView;

    closed spec fn view(&self) -> StorageView {
        StorageView {
            counter: self.ids.issued(),
            records: self.contracts.map().map_values(|m: ContractMetadata| m@),
            all: self.all@,
            by_category: Map::total(|c: Category| self.by_category.ids(c.code())),
        }
    }
}

impl Storage {
    /// The representation is sound. Every function here keeps it so.
    pub closed spec fn wf(&self) -> bool {
        self.contracts.wf() && self.by_category.wf()
    }

    /// A store with the counter at 0, no record and empty lists.
    pub fn new() -> (r: Self)
        ensures
            r.wf(),
            r@.counter == 0,
            r@.records == Map::<u32, ContractMetadataView>::empty(),
            r@.all == Seq::<u32>::empty(),
            r@.by_category == Map::total(|c: Category| Seq::<u32>::empty()),
    {
        let r = Storage {
            ids: IdAllocator::new(),
            contracts: Table::new(),
            all: Vec::new(),
            by_category: SecondaryIndex::new(),
        };
        assert(r@.records =~= Map::<u32, ContractMetadataView>::empty());
        assert(r@.by_category =~= Map::total(|c: Category| Seq::<u32>::empty()));
        r
    }
}

/// The identity issued last; 0 while nothing has been published.
pub fn get_counter(store: &Storage) -> (r: u32)
    ensures
        r == store@.counter,
{
    store.ids.current()
}

/// Advances the counter by one and returns its new value.
pub fn increment_counter(store: &mut Storage) -> (r: u32)
    requires
        old(store).wf(),
        old(store)@.counter < u32::MAX,
    ensures
        final(store).wf(),
        r == old(store)@.counter + 1,
        final(store)@ == (StorageView { counter: r, ..old(store)@ }),
{
    store.ids.next_id()
}

/// Stores a copy of `metadata` under `contract_id`, in place of any record
/// stored there before.
pub fn save_contract(store: &mut Storage, contract_id: u32, metadata: &ContractMetadata)
    requires
        old(store).wf(),
    ensures
        final(store).wf(),
        final(store)@ == (StorageView {
            records: old(store)@.records.insert(contract_id, metadata@),
            ..old(store)@
        }),
{
    store.contracts.insert(contract_id, metadata.clone());
    assert(store@.records =~= old(store)@.records.insert(contract_id, metadata@));
}

/// A copy of the record stored under `contract_id`, if there is one.
pub fn get_contract(store: &Storage, contract_id: u32) -> (r: Option<ContractMetadata>)
    requires
        store.wf(),
    ensures
        match r {
            Some(m) => store@.records.contains_key(contract_id) && m@ == store@.records[contract_id],
            None => !store@.records.contains_key(contract_id),
        },
{
    match store.contracts.get(&contract_id) {
        Some(m) => Some(m.clone()),
        None => None,
    }
}

/// The identities of all contracts, in the order in which they were added.
pub fn get_all_contract_ids(store: &Storage) -> (r: Vec<u32>)
    ensures
        r@ == store@.all,
{
    let r = store.all.clone();
    assert(r@ =~= store.all@);
    r
}

/// Adds `contract_id` at the end of the list of all contracts.
pub fn add_to_all_contracts(store: &mut Storage, contract_id: u32)
    requires
        old(store).wf(),
    ensures
        final(store).wf(),
        final(store)@ == (StorageView { all: old(store)@.all.push(contract_id), ..old(store)@ }),
{
    store.all.push(contract_id);
}

/// The identities listed under `category`, in the order in which they were
/// added.
pub fn get_category_contracts(store: &Storage, category: &Category) -> (r: Vec<u32>)
    requires
        store.wf(),
    ensures
        r@ == store@.by_category[*category],
{
    store.by_category.list(&category.code())
}

/// Adds `contract_id` at the end of the list of `category`.
pub fn add_to_category(store: &mut Storage, category: &Category, contract_id: u32)
    requires
        old(store).wf(),
    ensures
        final(store).wf(),
        final(store)@ == (StorageView {
            by_category: old(store)@.by_category.insert(
                *category,
                old(store)@.by_category[*category].push(contract_id),
            ),
            ..old(store)@
        }),
{
    store.by_category.append(&category.code(), contract_id);
    assert(store@.by_category =~= old(store)@.by_category.insert(
        *category,
        old(store)@.by_category[*category].push(contract_id),
    ));
}

} // verus!
