use vstd::prelude::*;
use crate::allocator::IdAllocator;
use crate::deployment::types::{DeploymentRecord, DeploymentRecordView};
use crate::index::SecondaryIndex;
use crate::principal::Principal;
use crate::table::Table;

verus! {

/// The persistent state of the deployments: the counter of deployment
/// identities, the records by identity, the list of all identities, and the
/// lists by deployer and by contract.
pub struct Storage {
    ids: IdAllocator,
    deployments: Table<u32, DeploymentRecord>,
    all: Vec<u32>,
    by_deployer: SecondaryIndex<Principal>,
    by_contract: SecondaryIndex<u32>,
}

/// What a [`Storage`] holds.
#[verifier::ext_equal]
pub ghost struct StorageView {
    pub counter: u32,
    pub records: Map<u32, DeploymentRecordView>,
    pub all: Seq<u32>,
    pub by_deployer: Map<Seq<char>, Seq<u32>>,
    pub by_contract: Map<u32, Seq<u32>>,
}

impl View for Storage {
    type V = StorageView;

    closed spec fn view(&self) -> StorageView {
        StorageView {
            counter: self.ids.issued(),
            records: self.deployments.map().map_values(|r: DeploymentRecord| r@),
            all: self.all@,
            by_deployer: Map::total(|p: Seq<char>| self.by_deployer.ids(p)),
            by_contract: Map::total(|c: u32| self.by_contract.ids(c)),
        }
    }
}

impl Storage {
    /// The representation is sound. Every function here keeps it so.
    pub closed spec fn wf(&self) -> bool {
        self.deployments.wf() && self.by_deployer.wf() && self.by_contract.wf()
    }

    /// A store with the counter at 0, no record and empty lists.
    pub fn new() -> (r: Self)
        ensures
            r.wf(),
            r@.counter == 0,
            r@.records == Map::<u32, DeploymentRecordView>::empty(),
            r@.all == Seq::<u32>::empty(),
            r@.by_deployer == Map::total(|p: Seq<char>| Seq::<u32>::empty()),
            r@.by_contract == Map::total(|c: u32| Seq::<u32>::empty()),
    {
        let r = Storage {
            ids: IdAllocator::new(),
            deployments: Table::new(),
            all: Vec::new(),
            by_deployer: SecondaryIndex::new(),
            by_contract: SecondaryIndex::new(),
        };
        assert(r@.records =~= Map::<u32, DeploymentRecordView>::empty());
        assert(r@.by_deployer =~= Map::total(|p: Seq<char>| Seq::<u32>::empty()));
        assert(r@.by_contract =~= Map::total(|c: u32| Seq::<u32>::empty()));
        r
    }
}

/// The identity issued last; 0 while nothing has been deployed.
pub fn get_counter(store: &Storage) -> (r: u32)
    ensures
        r == store@.counter,
{
    store.ids.current()
}

/// Advances the counter by one and returns its new value.
pub fn increment_counter(store: &mut Storage) -> (r: u32)
    requires
        old(store).wf(),
        old(store)@.counter < u32::MAX,
    ensures
        final(store).wf(),
        r == old(store)@.counter + 1,
        final(store)@ == (StorageView { counter: r, ..old(store)@ }),
{
    store.ids.next_id()
}

/// Stores a copy of `record` under `deployment_id`, in place of any record
/// stored there before.
pub fn save_deployment(store: &mut Storage, deployment_id: u32, record: &DeploymentRecord)
    requires
        old(store).wf(),
    ensures
        final(store).wf(),
        final(store)@ == (StorageView {
            records: old(store)@.records.insert(deployment_id, record@),
            ..old(store)@
        }),
{
    store.deployments.insert(deployment_id, record.clone());
    assert(store@.records =~= old(store)@.records.insert(deployment_id, record@));
}

/// A copy of the record stored under `deployment_id`, if there is one.
pub fn get_deployment(store: &Storage, deployment_id: u32) -> (r: Option<DeploymentRecord>)
    requires
        store.wf(),
    ensures
        match r {
            Some(m) => store@.records.contains_key(deployment_id) && m@
                == store@.records[deployment_id],
            None => !store@.records.contains_key(deployment_id),
        },
{
    match store.deployments.get(&deployment_id) {
        Some(m) => Some(m.clone()),
        None => None,
    }
}

/// The identities of all deployments, in the order in which they were added.
pub fn get_all_deployment_ids(store: &Storage) -> (r: Vec<u32>)
    ensures
        r@ == store@.all,
{
    let r = store.all.clone();
    assert(r@ =~= store.all@);
    r
}

/// Adds `deployment_id` at the end of the list of all deployments.
pub fn add_to_all_deployments(store: &mut Storage, deployment_id: u32)
    requires
        old(store).wf(),
    ensures
        final(store).wf(),
        final(store)@ == (StorageView { all: old(store)@.all.push(deployment_id), ..old(store)@ }),
{
    store.all.push(deployment_id);
}

/// The identities listed under `deployer`, in the order in which they were
/// added.
pub fn get_deployer_deployments(store: &Storage, deployer: &Principal) -> (r: Vec<u32>)
    requires
        store.wf(),
    ensures
        r@ == store@.by_deployer[deployer@],
{
    store.by_deployer.list(deployer)
}

/// Adds `deployment_id` at the end of the list of `deployer`.
pub fn add_to_deployer(store: &mut Storage, deployer: &Principal, deployment_id: u32)
    requires
        old(store).wf(),
    ensures
        final(store).wf(),
        final(store)@ == (StorageView {
            by_deployer: old(store)@.by_deployer.insert(
                deployer@,
                old(store)@.by_deployer[deployer@].push(deployment_id),
            ),
            ..old(store)@
        }),
{
    store.by_deployer.append(deployer, deployment_id);
    assert(store@.by_deployer =~= old(store)@.by_deployer.insert(
        deployer@,
        old(store)@.by_deployer[deployer@].push(deployment_id),
    ));
}

/// The identities listed under `contract_id`, in the order in which they were
/// added.
pub fn get_contract_deployments(store: &Storage, contract_id: u32) -> (r: Vec<u32>)
    requires
        store.wf(),
    ensures
        r@ == store@.by_contract[contract_id],
{
    store.by_contract.list(&contract_id)
}

/// Adds `deployment_id` at the end of the list of `contract_id`.
pub fn add_to_contract_deployments(store: &mut Storage, contract_id: u32, deployment_id: u32)
    requires
        old(store).wf(),
    ensures
        final(store).wf(),
        final(store)@ == (StorageView {
            by_contract: old(store)@.by_contract.insert(
                contract_id,
                old(store)@.by_contract[contract_id].push(deployment_id),
            ),
            ..old(store)@
        }),
{
    store.by_contract.append(&contract_id, deployment_id);
    assert(store@.by_contract =~= old(store)@.by_contract.insert(
        contract_id,
        old(store)@.by_contract[contract_id].push(deployment_id),
    ));
}

} // verus!
