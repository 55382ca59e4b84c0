use vstd::prelude::*;
use crate::deployment::storage::StorageView;
use crate::deployment::types::{DeploymentRecordView, Error, InitArgView};
use crate::listing::{first_ids, ids_where, lemma_ids_where_push};

verus! {

/// The content of the notification of a deployment.
pub ghost struct EventView {
    pub deployment_id: u32,
    pub deployed_address: Seq<char>,
}

/// The deployments as a mathematical value: the records in the order of
/// deployment, and the notifications not yet collected.
#[verifier::ext_equal]
pub ghost struct DeploymentState {
    pub deployments: Seq<DeploymentRecordView>,
    pub events: Seq<EventView>,
}

/// The filter for the deployments by one principal.
pub open spec fn by_deployer(p: Seq<char>) -> spec_fn(DeploymentRecordView) -> bool {
    |r: DeploymentRecordView| r.deployer == p
}

/// The filter for the deployments of one contract.
pub open spec fn of_contract(contract_id: u32) -> spec_fn(DeploymentRecordView) -> bool {
    |r: DeploymentRecordView| r.contract_id == contract_id
}

impl DeploymentState {
    /// The state before anything was deployed.
    pub open spec fn empty() -> DeploymentState {
        DeploymentState { deployments: Seq::empty(), events: Seq::empty() }
    }

    /// Identities are 1, 2, 3, ... in the order of deployment.
    pub open spec fn valid(self) -> bool {
        &&& self.deployments.len() <= u32::MAX
        &&& forall|i: int|
            0 <= i < self.deployments.len() ==> (#[trigger] self.deployments[i]).deployment_id == i
                + 1
    }

    /// Whether a deployment has the identity `id`.
    pub open spec fn has(self, id: u32) -> bool {
        1 <= id <= self.deployments.len()
    }

    /// The record with the identity `id`.
    pub open spec fn record(self, id: u32) -> DeploymentRecordView {
        self.deployments[id - 1]
    }

    /// What `deploy_from_wasm` returns, where `instantiated` is the address
    /// at which the contract was instantiated, if it was.
    pub open spec fn deploy_outcome(self, instantiated: Option<Seq<char>>) -> Result<u32, Error> {
        if instantiated is Some {
            Ok((self.deployments.len() + 1) as u32)
        } else {
            Err(Error::DeploymentFailed)
        }
    }

    /// The state after `deploy_from_wasm`.
    pub open spec fn after_deploy(
        self,
        contract_id: u32,
        deployer: Seq<char>,
        wasm_hash: Seq<u8>,
        salt: Seq<u8>,
        init_args: Seq<InitArgView>,
        instantiated: Option<Seq<char>>,
        now: u64,
    ) -> DeploymentState {
        if instantiated is Some {
            let deployment_id = (self.deployments.len() + 1) as u32;
            DeploymentState {
                deployments: self.deployments.push(
                    DeploymentRecordView {
                        deployment_id,
                        contract_id,
                        deployer,
                        deployed_contract_address: instantiated->0,
                        deployed_at: now,
                        wasm_hash,
                        salt,
                        init_args,
                    },
                ),
                events: self.events.push(
                    EventView { deployment_id, deployed_address: instantiated->0 },
                ),
            }
        } else {
            self
        }
    }
}

/// The deployer of each deployment, in the order of deployment.
pub open spec fn deployer_keys(deployments: Seq<DeploymentRecordView>) -> Seq<Seq<char>> {
    Seq::new(deployments.len(), |i: int| deployments[i].deployer)
}

/// The contract of each deployment, in the order of deployment.
pub open spec fn contract_keys(deployments: Seq<DeploymentRecordView>) -> Seq<u32> {
    Seq::new(deployments.len(), |i: int| deployments[i].contract_id)
}

/// The records that a store holds, in the order of their identities.
pub open spec fn deployments_of(v: StorageView) -> Seq<DeploymentRecordView> {
    Seq::new(v.counter as nat, |i: int| v.records[(i + 1) as u32])
}

/// The store holds one record for each identity issued, under that identity,
/// and each list names exactly the deployments that belong in it, oldest
/// first.
pub open spec fn consistent(v: StorageView) -> bool {
    &&& forall|id: u32| v.records.contains_key(id) <==> 1 <= id <= v.counter
    &&& forall|id: u32| 1 <= id <= v.counter ==> (#[trigger] v.records[id]).deployment_id == id
    &&& v.all == first_ids(v.counter as nat)
    &&& forall|p: Seq<char>| #[trigger]
        v.by_deployer[p] == ids_where(deployer_keys(deployments_of(v)), p)
    &&& forall|c: u32| #[trigger]
        v.by_contract[c] == ids_where(contract_keys(deployments_of(v)), c)
}

/// The store after a new record was filed: the counter advanced to the
/// identity of the record, the record stored under it, and the identity
/// added to the list of all deployments, to that of its deployer and to that
/// of its contract.
pub open spec fn filed(v: StorageView, m: DeploymentRecordView) -> StorageView {
    StorageView {
        counter: m.deployment_id,
        records: v.records.insert(m.deployment_id, m),
        all: v.all.push(m.deployment_id),
        by_deployer: v.by_deployer.insert(
            m.deployer,
            v.by_deployer[m.deployer].push(m.deployment_id),
        ),
        by_contract: v.by_contract.insert(
            m.contract_id,
            v.by_contract[m.contract_id].push(m.deployment_id),
        ),
    }
}

/// Filing the record with the next identity keeps the store consistent and
/// adds the record after all others.
pub proof fn lemma_filed_consistent(v: StorageView, m: DeploymentRecordView)
    requires
        consistent(v),
        v.counter < u32::MAX,
        m.deployment_id == v.counter + 1,
    ensures
        consistent(filed(v, m)),
        deployments_of(filed(v, m)) == deployments_of(v).push(m),
{
    let after = filed(v, m);
    let old_records = deployments_of(v);
    assert(deployments_of(after) =~= old_records.push(m));
    assert(after.all =~= first_ids(after.counter as nat));
    assert(deployer_keys(deployments_of(after)) =~= deployer_keys(old_records).push(m.deployer));
    assert(contract_keys(deployments_of(after)) =~= contract_keys(old_records).push(
        m.contract_id,
    ));
    assert forall|q: Seq<char>| #[trigger]
        after.by_deployer[q] == ids_where(deployer_keys(deployments_of(after)), q) by {
        lemma_ids_where_push(deployer_keys(old_records), m.deployer, q);
        assert(v.by_deployer[q] == ids_where(deployer_keys(old_records), q));
    }
    assert forall|c: u32| #[trigger]
        after.by_contract[c] == ids_where(contract_keys(deployments_of(after)), c) by {
        lemma_ids_where_push(contract_keys(old_records), m.contract_id, c);
        assert(v.by_contract[c] == ids_where(contract_keys(old_records), c));
    }
}

} // verus!
