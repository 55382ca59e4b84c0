use vstd::prelude::*;
use crate::deployment::model::{by_deployer, consistent, contract_keys, deployer_keys,
    deployments_of, filed, lemma_filed_consistent, of_contract, DeploymentState, EventView};
use crate::deployment::storage::Storage;
use crate::deployment::types::{arg_views, DeploymentRecord, DeploymentRecordView, Error, InitArg,
    InitArgView};
use crate::listing::{first_ids, lemma_ids_where_sound, lemma_pick_is_filter, pick};
use crate::principal::Principal;

pub mod laws;
pub mod model;
pub mod storage;
pub mod types;

verus! {

/// Notifies that a contract was deployed, and at which address.
#[derive(Debug, PartialEq)]
pub struct DeployedEvent {
    pub deployment_id: u32,
    pub deployed_address: Principal,
}

impl View for DeployedEvent {
    type V = EventView;

    open spec fn view(&self) -> EventView {
        EventView { deployment_id: self.deployment_id, deployed_address: self.deployed_address@ }
    }
}

/// The contents of a list of notifications.
pub open spec fn event_views(s: Seq<DeployedEvent>) -> Seq<EventView> {
    s.map_values(|e: DeployedEvent| e@)
}

/// The contents of a list of records.
pub open spec fn record_views(s: Seq<DeploymentRecord>) -> Seq<DeploymentRecordView> {
    s.map_values(|r: DeploymentRecord| r@)
}

/// The record of the deployments of registered contracts.
pub struct DeploymentManager {
    storage: Storage,
    events: Vec<DeployedEvent>,
}

impl View for DeploymentManager {
    type V = DeploymentState;

    closed spec fn view(&self) -> DeploymentState {
        DeploymentState {
            deployments: deployments_of(self.storage@),
            events: event_views(self.events@),
        }
    }
}

impl DeploymentManager {
    /// The store is sound and its lists agree with its records. Every
    /// operation keeps this.
    pub closed spec fn wf(&self) -> bool {
        self.storage.wf() && consistent(self.storage@)
    }

    /// In a sound manager the identities are 1, 2, 3, ... in the order of
    /// deployment.
    pub proof fn lemma_wf_valid(&self)
        requires
            self.wf(),
        ensures
            self@.valid(),
    {
    }

    /// A manager that has recorded nothing.
    pub fn new() -> (r: Self)
        ensures
            r.wf(),
            r@ == DeploymentState::empty(),
    {
        let r = DeploymentManager { storage: Storage::new(), events: Vec::new() };
        assert(r@.deployments =~= Seq::<DeploymentRecordView>::empty());
        assert(r@.events =~= Seq::<EventView>::empty());
        assert(r.storage@.all =~= first_ids(0));
        assert(deployer_keys(deployments_of(r.storage@)) =~= Seq::<Seq<char>>::empty());
        assert(contract_keys(deployments_of(r.storage@)) =~= Seq::<u32>::empty());
        r
    }

    /// The manager that holds `records` as its deployments, given in the
    /// order of deployment, and no pending notification; nothing if their
    /// identities are not 1, 2, 3, ... in that order.
    pub fn restore(records: &Vec<DeploymentRecord>) -> (r: Option<Self>)
        ensures
            match r {
                Some(manager) => manager.wf() && manager@ == (DeploymentState {
                    deployments: record_views(records@),
                    events: Seq::empty(),
                }),
                None => !(DeploymentState {
                    deployments: record_views(records@),
                    events: Seq::empty(),
                }).valid(),
            },
    {
        let mut manager = Self::new();
        let ghost all = record_views(records@);
        let mut i: usize = 0;
        assert(all.take(0) =~= Seq::<DeploymentRecordView>::empty());
        while i < records.len()
            invariant
                i <= records@.len(),
                all == record_views(records@),
                manager.wf(),
                manager@.deployments == all.take(i as int),
                manager@.events == Seq::<EventView>::empty(),
            decreases records@.len() - i,
        {
            let record = &records[i];
            let issued = storage::get_counter(&manager.storage);
            assert(record@ == all[i as int]);
            assert(all.take(i as int).len() == i);
            if issued == u32::MAX || record.deployment_id != issued + 1 {
                return None;
            }
            let ghost before = manager.storage@;
            let deployment_id = storage::increment_counter(&mut manager.storage);
            storage::save_deployment(&mut manager.storage, deployment_id, record);
            storage::add_to_all_deployments(&mut manager.storage, deployment_id);
            storage::add_to_deployer(&mut manager.storage, &record.deployer, deployment_id);
            storage::add_to_contract_deployments(
                &mut manager.storage,
                record.contract_id,
                deployment_id,
            );
            proof {
                lemma_filed_consistent(before, record@);
                assert(manager.storage@ == filed(before, record@));
                assert(all.take(i + 1) =~= all.take(i as int).push(record@));
            }
            i += 1;
        }
        assert(all.take(all.len() as int) =~= all);
        Some(manager)
    }

    /// The constructor arguments of a contract that takes its administrator
    /// and nothing else.
    pub fn admin_args(admin: Principal) -> (r: Vec<InitArg>)
        ensures
            arg_views(r@) == seq![InitArgView::Address(admin@)],
    {
        let mut init_args: Vec<InitArg> = Vec::new();
        init_args.push(InitArg::Address(admin));
        assert(arg_views(init_args@) =~= seq![InitArgView::Address(admin@)]);
        init_args
    }

    /// Records the deployment of a contract whose constructor takes the
    /// administrator `admin` and nothing else. See
    /// [`DeploymentManager::deploy_from_wasm`].
    pub fn deploy_with_admin(
        &mut self,
        contract_id: u32,
        deployer: Principal,
        wasm_hash: [u8; 32],
        salt: [u8; 32],
        admin: Principal,
        instantiated: Option<Principal>,
        now: u64,
    ) -> (r: Result<u32, Error>)
        requires
            old(self).wf(),
            instantiated is Some ==> old(self)@.deployments.len() < u32::MAX,
        ensures
            final(self).wf(),
            r == old(self)@.deploy_outcome(opt_principal(instantiated)),
            final(self)@ == old(self)@.after_deploy(
                contract_id,
                deployer@,
                wasm_hash@,
                salt@,
                seq![InitArgView::Address(admin@)],
                opt_principal(instantiated),
                now,
            ),
    {
        let init_args = Self::admin_args(admin);
        self.deploy_from_wasm(contract_id, deployer, wasm_hash, salt, init_args, instantiated, now)
    }

    /// Records the deployment of the contract `contract_id` by `deployer`, at
    /// the time `now`. The contract was to be instantiated from the code
    /// `wasm_hash` with `salt` and the constructor arguments `init_args`;
    /// `instantiated` is the address at which it now stands, or nothing if
    /// that failed. Whether `contract_id` is registered is not asked.
    ///
    /// If the instantiation failed, the call is refused with
    /// `DeploymentFailed`, no identity is issued and nothing is recorded.
    /// Otherwise the deployment gets the next identity, and `DeployedEvent`
    /// is notified.
    pub fn deploy_from_wasm(
        &mut self,
        contract_id: u32,
        deployer: Principal,
        wasm_hash: [u8; 32],
        salt: [u8; 32],
        init_args: Vec<InitArg>,
        instantiated: Option<Principal>,
        now: u64,
    ) -> (r: Result<u32, Error>)
        requires
            old(self).wf(),
            instantiated is Some ==> old(self)@.deployments.len() < u32::MAX,
        ensures
            final(self).wf(),
            r == old(self)@.deploy_outcome(opt_principal(instantiated)),
            final(self)@ == old(self)@.after_deploy(
                contract_id,
                deployer@,
                wasm_hash@,
                salt@,
                arg_views(init_args@),
                opt_principal(instantiated),
                now,
            ),
    {
        let deployed_address = match instantiated {
            Some(address) => address,
            None => {
                return Err(Error::DeploymentFailed);
            },
        };
        let ghost before = self.storage@;
        let deployment_id = storage::increment_counter(&mut self.storage);
        let record = DeploymentRecord {
            deployment_id,
            contract_id,
            deployer,
            deployed_contract_address: deployed_address.clone(),
            deployed_at: now,
            wasm_hash,
            salt,
            init_args,
        };
        storage::save_deployment(&mut self.storage, deployment_id, &record);
        storage::add_to_all_deployments(&mut self.storage, deployment_id);
        storage::add_to_deployer(&mut self.storage, &record.deployer, deployment_id);
        storage::add_to_contract_deployments(&mut self.storage, contract_id, deployment_id);
        self.events.push(DeployedEvent { deployment_id, deployed_address });
        proof {
            lemma_filed_consistent(before, record@);
            assert(self.storage@ == filed(before, record@));
            assert(self@.events =~= old(self)@.events.push(
                EventView {
                    deployment_id,
                    deployed_address: record.deployed_contract_address@,
                },
            ));
        }
        Ok(deployment_id)
    }

    /// The number of deployments recorded so far.
    pub fn get_total_deployments(&self) -> (r: u32)
        requires
            self.wf(),
        ensures
            r == self@.deployments.len(),
    {
        storage::get_counter(&self.storage)
    }

    /// The record of the deployment `deployment_id`, or `ContractNotFound`.
    pub fn get_deployment(&self, deployment_id: u32) -> (r: Result<DeploymentRecord, Error>)
        requires
            self.wf(),
        ensures
            match r {
                Ok(m) => self@.has(deployment_id) && m@ == self@.record(deployment_id),
                Err(e) => !self@.has(deployment_id) && e == Error::ContractNotFound,
            },
    {
        match storage::get_deployment(&self.storage, deployment_id) {
            Some(m) => Ok(m),
            None => Err(Error::ContractNotFound),
        }
    }

    /// The records that `ids` names, in that order.
    fn collect(&self, ids: &Vec<u32>) -> (r: Vec<DeploymentRecord>)
        requires
            self.wf(),
            forall|j: int| 0 <= j < ids@.len() ==> self@.has(#[trigger] ids@[j]),
        ensures
            record_views(r@) == pick(self@.deployments, ids@),
    {
        let mut records: Vec<DeploymentRecord> = Vec::new();
        let mut j: usize = 0;
        while j < ids.len()
            invariant
                self.wf(),
                j <= ids@.len(),
                forall|j: int| 0 <= j < ids@.len() ==> self@.has(#[trigger] ids@[j]),
                record_views(records@) == pick(self@.deployments, ids@).take(j as int),
            decreases ids@.len() - j,
        {
            let id = ids[j];
            let ghost before = records@;
            assert(self@.has(id));
            assert(self.storage@.records.contains_key(id));
            assert(record_views(before).len() == j);
            if let Some(record) = storage::get_deployment(&self.storage, id) {
                assert(record@ == self@.deployments[id - 1]);
                records.push(record);
            }
            assert(record_views(records@) =~= pick(self@.deployments, ids@).take(j + 1)) by {
                assert forall|k: int| 0 <= k < j implies record_views(records@)[k] == pick(
                    self@.deployments,
                    ids@,
                ).take(j as int)[k] by {
                    assert(records@[k] == before[k]);
                    assert(record_views(before)[k] == before[k]@);
                }
            }
            j += 1;
        }
        assert(pick(self@.deployments, ids@).take(ids@.len() as int) =~= pick(
            self@.deployments,
            ids@,
        ));
        records
    }

    /// The records of exactly the deployments by `deployer`, in the order of
    /// deployment.
    pub fn get_deployment_history(&self, deployer: Principal) -> (r: Vec<DeploymentRecord>)
        requires
            self.wf(),
        ensures
            record_views(r@) == self@.deployments.filter(by_deployer(deployer@)),
    {
        let deployment_ids = storage::get_deployer_deployments(&self.storage, &deployer);
        proof {
            lemma_ids_where_sound(deployer_keys(self@.deployments), deployer@);
            lemma_pick_is_filter(
                self@.deployments,
                deployer_keys(self@.deployments),
                deployer@,
                by_deployer(deployer@),
            );
        }
        self.collect(&deployment_ids)
    }

    /// The records of exactly the deployments of the contract `contract_id`,
    /// in the order of deployment.
    pub fn get_contract_deployments(&self, contract_id: u32) -> (r: Vec<DeploymentRecord>)
        requires
            self.wf(),
        ensures
            record_views(r@) == self@.deployments.filter(of_contract(contract_id)),
    {
        let deployment_ids = storage::get_contract_deployments(&self.storage, contract_id);
        proof {
            lemma_ids_where_sound(contract_keys(self@.deployments), contract_id);
            lemma_pick_is_filter(
                self@.deployments,
                contract_keys(self@.deployments),
                contract_id,
                of_contract(contract_id),
            );
        }
        self.collect(&deployment_ids)
    }

    /// The records of all deployments, in the order of deployment.
    pub fn get_all_deployments(&self) -> (r: Vec<DeploymentRecord>)
        requires
            self.wf(),
        ensures
            record_views(r@) == self@.deployments,
    {
        let deployment_ids = storage::get_all_deployment_ids(&self.storage);
        let records = self.collect(&deployment_ids);
        assert(pick(self@.deployments, deployment_ids@) =~= self@.deployments);
        records
    }

    /// Hands out the notifications noted since the last call, oldest first.
    pub fn take_events(&mut self) -> (r: Vec<DeployedEvent>)
        requires
            old(self).wf(),
        ensures
            final(self).wf(),
            event_views(r@) == old(self)@.events,
            final(self)@ == (DeploymentState { events: Seq::empty(), ..old(self)@ }),
    {
        let mut events: Vec<DeployedEvent> = Vec::new();
        std::mem::swap(&mut events, &mut self.events);
        assert(self@.events =~= Seq::<EventView>::empty());
        events
    }
}

/// The identity of a principal that may be absent.
pub open spec fn opt_principal(o: Option<Principal>) -> Option<Seq<char>> {
    match o {
        Some(p) => Some(p@),
        None => None,
    }
}

} // verus!
