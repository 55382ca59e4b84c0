use vstd::prelude::*;
use crate::key::Key;
use crate::listing::{first_ids, lemma_filter_push, lemma_ids_where_sound, lemma_pick_is_filter,
    pick};
use crate::principal::Principal;
use crate::registry::model::{categories, consistent, contracts_of, filed, has_category, has_tag,
    lemma_filed_consistent, lemma_replaced_consistent, valid_params, EventView, RegistryState};
use crate::registry::storage::Storage;
use crate::registry::types::{Category, ContractMetadata, ContractMetadataView, Error,
    PublishParams};
use crate::text::{char_count, contains_text, opt_text, opt_texts};

pub mod laws;
pub mod model;
pub mod storage;
pub mod types;

verus! {

/// Notifies that a contract was published.
#[derive(Clone, Copy, Debug, PartialEq, Eq)]
pub struct Published {
    pub contract_id: u32,
}

/// Notifies that the metadata of a contract was changed.
#[derive(Clone, Copy, Debug, PartialEq, Eq)]
pub struct Updated {
    pub contract_id: u32,
}

/// Notifies that a contract was marked as verified, and by whom.
#[derive(Debug, PartialEq)]
pub struct Verified {
    pub contract_id: u32,
    pub auditor: Principal,
}

/// Notifies that a deployment of a contract was counted.
#[derive(Clone, Copy, Debug, PartialEq, Eq)]
pub struct Deployed {
    pub contract_id: u32,
    pub total_deployments: u32,
}

/// A notification of the registry.
#[derive(Debug, PartialEq)]
pub enum Event {
    Published(Published),
    Updated(Updated),
    Verified(Verified),
    Deployed(Deployed),
}

impl View for Event {
    type V = EventView;

    open spec fn view(&self) -> EventView {
        match self {
            Event::Published(e) => EventView::Published { contract_id: e.contract_id },
            Event::Updated(e) => EventView::Updated { contract_id: e.contract_id },
            Event::Verified(e) => EventView::Verified {
                contract_id: e.contract_id,
                auditor: e.auditor@,
            },
            Event::Deployed(e) => EventView::Deployed {
                contract_id: e.contract_id,
                total_deployments: e.total_deployments,
            },
        }
    }
}

/// The contents of a list of notifications.
pub open spec fn event_views(s: Seq<Event>) -> Seq<EventView> {
    s.map_values(|e: Event| e@)
}

/// The contents of a list of records.
pub open spec fn metadata_views(s: Seq<ContractMetadata>) -> Seq<ContractMetadataView> {
    s.map_values(|m: ContractMetadata| m@)
}

/// The registry of published contracts.
pub struct ContractRegistry {
    storage: Storage,
    events: Vec<Event>,
}

impl View for ContractRegistry {
    type V = RegistryState;

    closed spec fn view(&self) -> RegistryState {
        RegistryState {
            contracts: contracts_of(self.storage@),
            events: event_views(self.events@),
        }
    }
}

impl ContractRegistry {
    /// The store is sound and its lists agree with its records. Every
    /// operation keeps this.
    pub closed spec fn wf(&self) -> bool {
        self.storage.wf() && consistent(self.storage@)
    }

    /// In a sound registry the identities are 1, 2, 3, ... in the order of
    /// publication.
    pub proof fn lemma_wf_valid(&self)
        requires
            self.wf(),
        ensures
            self@.valid(),
    {
    }

    /// A registry in which nothing has been published.
    pub fn new() -> (r: Self)
        ensures
            r.wf(),
            r@ == RegistryState::empty(),
    {
        let r = ContractRegistry { storage: Storage::new(), events: Vec::new() };
        assert(r@.contracts =~= Seq::<ContractMetadataView>::empty());
        assert(r@.events =~= Seq::<EventView>::empty());
        assert(r.storage@.all =~= first_ids(0));
        assert(categories(contracts_of(r.storage@)) =~= Seq::<Category>::empty());
        r
    }

    /// The registry that holds `records` as its contracts, given in the
    /// order of publication, and no pending notification; nothing if their
    /// identities are not 1, 2, 3, ... in that order.
    pub fn restore(records: &Vec<ContractMetadata>) -> (r: Option<Self>)
        ensures
            match r {
                Some(registry) => registry.wf() && registry@ == (RegistryState {
                    contracts: metadata_views(records@),
                    events: Seq::empty(),
                }),
                None => !(RegistryState {
                    contracts: metadata_views(records@),
                    events: Seq::empty(),
                }).valid(),
            },
    {
        let mut registry = Self::new();
        let ghost all = metadata_views(records@);
        let mut i: usize = 0;
        assert(all.take(0) =~= Seq::<ContractMetadataView>::empty());
        while i < records.len()
            invariant
                i <= records@.len(),
                all == metadata_views(records@),
                registry.wf(),
                registry@.contracts == all.take(i as int),
                registry@.events == Seq::<EventView>::empty(),
            decreases records@.len() - i,
        {
            let metadata = &records[i];
            let issued = storage::get_counter(&registry.storage);
            assert(metadata@ == all[i as int]);
            assert(all.take(i as int).len() == i);
            assert(issued == i);
            if issued == u32::MAX || metadata.id != issued + 1 {
                return None;
            }
            let ghost before = registry.storage@;
            let contract_id = storage::increment_counter(&mut registry.storage);
            storage::save_contract(&mut registry.storage, contract_id, metadata);
            storage::add_to_all_contracts(&mut registry.storage, contract_id);
            storage::add_to_category(&mut registry.storage, &metadata.category, contract_id);
            proof {
                lemma_filed_consistent(before, metadata@);
                assert(registry.storage@ == filed(before, metadata@));
                assert(all.take(i + 1) =~= all.take(i as int).push(metadata@));
            }
            i += 1;
        }
        assert(all.take(all.len() as int) =~= all);
        Some(registry)
    }

    /// Whether a submission is acceptable: `InvalidMetadata` unless the name
    /// has 1 to 100 characters, the description 1 to 500, the source URL is
    /// not empty and there are at most 10 tags.
    pub fn validate(params: &PublishParams) -> (r: Result<(), Error>)
        ensures
            r == if valid_params(params@) {
                Ok::<(), Error>(())
            } else {
                Err::<(), Error>(Error::InvalidMetadata)
            },
    {
        let name_len = char_count(&params.name);
        if name_len == 0 || name_len > 100 {
            return Err(Error::InvalidMetadata);
        }
        let description_len = char_count(&params.description);
        if description_len == 0 || description_len > 500 {
            return Err(Error::InvalidMetadata);
        }
        if char_count(&params.source_url) == 0 {
            return Err(Error::InvalidMetadata);
        }
        if params.tags.len() > 10 {
            return Err(Error::InvalidMetadata);
        }
        Ok(())
    }

    /// Publishes a contract in the name of `author`, at the time `now`.
    ///
    /// An unacceptable submission is refused with `InvalidMetadata` before
    /// any identity is issued, and changes nothing. Otherwise the contract
    /// gets the next identity and is recorded as unverified and never
    /// deployed, and `Published` is notified.
    pub fn publish_contract(&mut self, author: Principal, params: PublishParams, now: u64) -> (r:
        Result<u32, Error>)
        requires
            old(self).wf(),
            old(self)@.publish_outcome(params@) is Ok ==> old(self)@.contracts.len() < u32::MAX,
        ensures
            final(self).wf(),
            r == old(self)@.publish_outcome(params@),
            final(self)@ == old(self)@.after_publish(author@, params@, now),
    {
        if let Err(e) = Self::validate(&params) {
            return Err(e);
        }
        let ghost before = self.storage@;
        let contract_id = storage::increment_counter(&mut self.storage);
        let metadata = ContractMetadata {
            id: contract_id,
            wasm_hash: params.wasm_hash,
            name: params.name,
            description: params.description,
            version: params.version,
            author,
            category: params.category,
            tags: params.tags,
            source_url: params.source_url,
            documentation_url: params.documentation_url,
            license: params.license,
            published_at: now,
            updated_at: now,
            total_deployments: 0,
            verified: false,
        };
        storage::save_contract(&mut self.storage, contract_id, &metadata);
        storage::add_to_all_contracts(&mut self.storage, contract_id);
        storage::add_to_category(&mut self.storage, &metadata.category, contract_id);
        self.events.push(Event::Published(Published { contract_id }));
        proof {
            lemma_filed_consistent(before, metadata@);
            assert(self.storage@ == filed(before, metadata@));
            assert(self@.events =~= old(self)@.events.push(
                EventView::Published { contract_id },
            ));
        }
        Ok(contract_id)
    }

    /// The number of contracts published so far.
    pub fn get_contract_count(&self) -> (r: u32)
        requires
            self.wf(),
        ensures
            r == self@.contracts.len(),
    {
        storage::get_counter(&self.storage)
    }

    /// The record of the contract `contract_id`, or `ContractNotFound`.
    pub fn get_contract(&self, contract_id: u32) -> (r: Result<ContractMetadata, Error>)
        requires
            self.wf(),
        ensures
            match r {
                Ok(m) => self@.has(contract_id) && m@ == self@.record(contract_id),
                Err(e) => !self@.has(contract_id) && e == Error::ContractNotFound,
            },
    {
        match storage::get_contract(&self.storage, contract_id) {
            Some(m) => Ok(m),
            None => Err(Error::ContractNotFound),
        }
    }

    /// The records that `ids` names, in that order.
    fn collect(&self, ids: &Vec<u32>) -> (r: Vec<ContractMetadata>)
        requires
            self.wf(),
            forall|j: int| 0 <= j < ids@.len() ==> self@.has(#[trigger] ids@[j]),
        ensures
            metadata_views(r@) == pick(self@.contracts, ids@),
    {
        let mut contracts: Vec<ContractMetadata> = Vec::new();
        let mut j: usize = 0;
        while j < ids.len()
            invariant
                self.wf(),
                j <= ids@.len(),
                forall|j: int| 0 <= j < ids@.len() ==> self@.has(#[trigger] ids@[j]),
                metadata_views(contracts@) == pick(self@.contracts, ids@).take(j as int),
            decreases ids@.len() - j,
        {
            let id = ids[j];
            assert(self@.has(id));
            let ghost before = contracts@;
            assert(self.storage@.records.contains_key(id));
            assert(metadata_views(before).len() == j);
            if let Some(metadata) = storage::get_contract(&self.storage, id) {
                assert(metadata@ == self@.contracts[id - 1]);
                contracts.push(metadata);
            }
            assert(metadata_views(contracts@) =~= pick(self@.contracts, ids@).take(j + 1)) by {
                assert forall|k: int| 0 <= k < j implies metadata_views(contracts@)[k] == pick(
                    self@.contracts,
                    ids@,
                ).take(j as int)[k] by {
                    assert(contracts@[k] == before[k]);
                    assert(metadata_views(before)[k] == before[k]@);
                }
            }
            j += 1;
        }
        assert(pick(self@.contracts, ids@).take(ids@.len() as int) =~= pick(self@.contracts, ids@));
        contracts
    }

    /// The records of all contracts, in the order of publication.
    pub fn get_all_contracts(&self) -> (r: Vec<ContractMetadata>)
        requires
            self.wf(),
        ensures
            metadata_views(r@) == self@.contracts,
    {
        let contract_ids = storage::get_all_contract_ids(&self.storage);
        let contracts = self.collect(&contract_ids);
        assert(pick(self@.contracts, contract_ids@) =~= self@.contracts);
        contracts
    }

    /// The records of exactly the contracts of `category`, in the order of
    /// publication.
    pub fn search_by_category(&self, category: Category) -> (r: Vec<ContractMetadata>)
        requires
            self.wf(),
        ensures
            metadata_views(r@) == self@.contracts.filter(has_category(category)),
    {
        let contract_ids = storage::get_category_contracts(&self.storage, &category);
        proof {
            lemma_ids_where_sound(categories(self@.contracts), category);
            lemma_pick_is_filter(
                self@.contracts,
                categories(self@.contracts),
                category,
                has_category(category),
            );
        }
        self.collect(&contract_ids)
    }

    /// The records of exactly the contracts that carry `tag`, in the order of
    /// publication. Every record is examined: no list by tag is kept.
    pub fn search_by_tag(&self, tag: String) -> (r: Vec<ContractMetadata>)
        requires
            self.wf(),
        ensures
            metadata_views(r@) == self@.contracts.filter(has_tag(tag@)),
    {
        let all_contracts = self.get_all_contracts();
        let mut matching: Vec<ContractMetadata> = Vec::new();
        let mut i: usize = 0;
        proof {
            reveal(Seq::filter);
            assert(self@.contracts.take(0) =~= Seq::<ContractMetadataView>::empty());
        }
        while i < all_contracts.len()
            invariant
                i <= all_contracts@.len(),
                metadata_views(all_contracts@) == self@.contracts,
                metadata_views(matching@) == self@.contracts.take(i as int).filter(has_tag(tag@)),
            decreases all_contracts@.len() - i,
        {
            let contract = &all_contracts[i];
            proof {
                assert(self@.contracts.take(i + 1) =~= self@.contracts.take(i as int).push(
                    self@.contracts[i as int],
                ));
                lemma_filter_push(
                    self@.contracts.take(i as int),
                    self@.contracts[i as int],
                    has_tag(tag@),
                );
                assert(contract@ == metadata_views(all_contracts@)[i as int]);
            }
            if contains_text(&contract.tags, &tag) {
                matching.push(contract.clone());
                assert(metadata_views(matching@) =~= self@.contracts.take(i + 1).filter(
                    has_tag(tag@),
                ));
            }
            i += 1;
        }
        assert(self@.contracts.take(all_contracts@.len() as int) =~= self@.contracts);
        matching
    }

    /// Puts `metadata` in place of the record of `contract_id` and notes
    /// `event`.
    fn replace(&mut self, contract_id: u32, metadata: &ContractMetadata, event: Event)
        requires
            old(self).wf(),
            old(self)@.has(contract_id),
            metadata.id == contract_id,
            metadata.category == old(self)@.record(contract_id).category,
        ensures
            final(self).wf(),
            final(self)@ == old(self)@.with_record(contract_id, metadata@, event@),
    {
        let ghost before = self.storage@;
        storage::save_contract(&mut self.storage, contract_id, metadata);
        self.events.push(event);
        proof {
            lemma_replaced_consistent(before, metadata@);
            assert(self@.events =~= old(self)@.events.push(event@));
        }
    }

    /// Changes the description, the documentation URL and the tags of a
    /// contract, each only if given, and sets the time of the last change to
    /// `now`. Only the publisher of the contract may do so.
    ///
    /// Refused, with nothing changed: with `ContractNotFound` if there is no
    /// such contract; else with `UnauthorizedUpdate` if `caller` did not
    /// publish it; else with `InvalidMetadata` if the description given is
    /// empty or longer than 500 characters, or more than 10 tags are given.
    pub fn update_metadata(
        &mut self,
        caller: &Principal,
        contract_id: u32,
        description: Option<String>,
        documentation_url: Option<String>,
        tags: Option<Vec<String>>,
        now: u64,
    ) -> (r: Result<(), Error>)
        requires
            old(self).wf(),
        ensures
            final(self).wf(),
            r == old(self)@.update_outcome(
                caller@,
                contract_id,
                opt_text(description),
                opt_texts(tags),
            ),
            final(self)@ == old(self)@.after_update(
                caller@,
                contract_id,
                opt_text(description),
                opt_text(documentation_url),
                opt_texts(tags),
                now,
            ),
    {
        let mut metadata = match storage::get_contract(&self.storage, contract_id) {
            Some(m) => m,
            None => {
                return Err(Error::ContractNotFound);
            },
        };
        if !metadata.author.same(caller) {
            return Err(Error::UnauthorizedUpdate);
        }
        if let Some(desc) = description {
            let len = char_count(&desc);
            if len == 0 || len > 500 {
                return Err(Error::InvalidMetadata);
            }
            metadata.description = desc;
        }
        if let Some(doc_url) = documentation_url {
            metadata.documentation_url = doc_url;
        }
        if let Some(new_tags) = tags {
            if new_tags.len() > 10 {
                return Err(Error::InvalidMetadata);
            }
            metadata.tags = new_tags;
        }
        metadata.updated_at = now;
        self.replace(contract_id, &metadata, Event::Updated(Updated { contract_id }));
        Ok(())
    }

    /// Marks a contract as verified, in the name of `auditor`. Any principal
    /// may do so; a contract once verified stays verified.
    ///
    /// Refused with `ContractNotFound`, and nothing changed, if there is no
    /// such contract.
    pub fn verify_contract(&mut self, contract_id: u32, auditor: Principal) -> (r: Result<
        (),
        Error,
    >)
        requires
            old(self).wf(),
        ensures
            final(self).wf(),
            r == old(self)@.found_outcome(contract_id),
            final(self)@ == old(self)@.after_verify(contract_id, auditor@),
    {
        let mut metadata = match storage::get_contract(&self.storage, contract_id) {
            Some(m) => m,
            None => {
                return Err(Error::ContractNotFound);
            },
        };
        metadata.verified = true;
        self.replace(contract_id, &metadata, Event::Verified(Verified { contract_id, auditor }));
        Ok(())
    }

    /// Counts one more deployment of a contract, in the name of `caller`.
    /// Any principal may do so. A count at the maximum stays there.
    ///
    /// Refused with `ContractNotFound`, and nothing changed, if there is no
    /// such contract.
    pub fn increment_deployment_count(&mut self, contract_id: u32, caller: &Principal) -> (r:
        Result<(), Error>)
        requires
            old(self).wf(),
        ensures
            final(self).wf(),
            r == old(self)@.found_outcome(contract_id),
            final(self)@ == old(self)@.after_increment(contract_id),
    {
        let mut metadata = match storage::get_contract(&self.storage, contract_id) {
            Some(m) => m,
            None => {
                return Err(Error::ContractNotFound);
            },
        };
        metadata.total_deployments = match metadata.total_deployments.checked_add(1) {
            Some(n) => n,
            None => metadata.total_deployments,
        };
        let total_deployments = metadata.total_deployments;
        self.replace(
            contract_id,
            &metadata,
            Event::Deployed(Deployed { contract_id, total_deployments }),
        );
        Ok(())
    }

    /// Hands out the notifications noted since the last call, oldest first.
    pub fn take_events(&mut self) -> (r: Vec<Event>)
        requires
            old(self).wf(),
        ensures
            final(self).wf(),
            event_views(r@) == old(self)@.events,
            final(self)@ == (RegistryState { events: Seq::empty(), ..old(self)@ }),
    {
        let mut events: Vec<Event> = Vec::new();
        std::mem::swap(&mut events, &mut self.events);
        assert(self@.events =~= Seq::<EventView>::empty());
        events
    }
}

} // verus!
