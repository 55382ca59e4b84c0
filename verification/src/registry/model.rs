use vstd::prelude::*;
use crate::listing::{first_ids, ids_where, lemma_ids_where_push};
use crate::registry::storage::StorageView;
use crate::registry::types::{Category, ContractMetadataView, Error, PublishParamsView};

verus! {

/// The content of a notification of the registry.
pub ghost enum EventView {
    Published { contract_id: u32 },
    Updated { contract_id: u32 },
    Verified { contract_id: u32, auditor: Seq<char> },
    Deployed { contract_id: u32, total_deployments: u32 },
}

/// The registry as a mathematical value: the records in the order of
/// publication, and the notifications not yet collected.
#[verifier::ext_equal]
pub ghost struct RegistryState {
    pub contracts: Seq<ContractMetadataView>,
    pub events: Seq<EventView>,
}

/// Whether a submission is acceptable: a name of 1 to 100 characters, a
/// description of 1 to 500, a source URL that is not empty, at most 10 tags.
pub open spec fn valid_params(p: PublishParamsView) -> bool {
    &&& 1 <= p.name.len() <= 100
    &&& 1 <= p.description.len() <= 500
    &&& 1 <= p.source_url.len()
    &&& p.tags.len() <= 10
}

/// The record that publication makes of a submission.
pub open spec fn new_record(
    id: u32,
    author: Seq<char>,
    p: PublishParamsView,
    now: u64,
) -> ContractMetadataView {
    ContractMetadataView {
        id,
        wasm_hash: p.wasm_hash,
        name: p.name,
        description: p.description,
        version: p.version,
        author,
        category: p.category,
        tags: p.tags,
        source_url: p.source_url,
        documentation_url: p.documentation_url,
        license: p.license,
        published_at: now,
        updated_at: now,
        total_deployments: 0,
        verified: false,
    }
}

/// The filter for the contracts of one category.
pub open spec fn has_category(c: Category) -> spec_fn(ContractMetadataView) -> bool {
    |m: ContractMetadataView| m.category == c
}

/// The filter for the contracts that carry one tag.
pub open spec fn has_tag(tag: Seq<char>) -> spec_fn(ContractMetadataView) -> bool {
    |m: ContractMetadataView| m.tags.contains(tag)
}

/// A counter one higher, unless it stands at the maximum.
pub open spec fn saturating_succ(n: u32) -> u32 {
    if n < u32::MAX {
        (n + 1) as u32
    } else {
        n
    }
}

impl RegistryState {
    /// The registry before anything was published.
    pub open spec fn empty() -> RegistryState {
        RegistryState { contracts: Seq::empty(), events: Seq::empty() }
    }

    /// Identities are 1, 2, 3, ... in the order of publication.
    pub open spec fn valid(self) -> bool {
        &&& self.contracts.len() <= u32::MAX
        &&& forall|i: int| 0 <= i < self.contracts.len() ==> (#[trigger] self.contracts[i]).id == i + 1
    }

    /// Whether a contract has the identity `id`.
    pub open spec fn has(self, id: u32) -> bool {
        1 <= id <= self.contracts.len()
    }

    /// The record with the identity `id`.
    pub open spec fn record(self, id: u32) -> ContractMetadataView {
        self.contracts[id - 1]
    }

    /// This state with the record of `id` replaced and one notification added.
    pub open spec fn with_record(self, id: u32, m: ContractMetadataView, e: EventView) -> RegistryState {
        RegistryState { contracts: self.contracts.update(id - 1, m), events: self.events.push(e) }
    }

    /// What `publish_contract` returns.
    pub open spec fn publish_outcome(self, p: PublishParamsView) -> Result<u32, Error> {
        if valid_params(p) {
            Ok((self.contracts.len() + 1) as u32)
        } else {
            Err(Error::InvalidMetadata)
        }
    }

    /// The registry after `publish_contract`.
    pub open spec fn after_publish(self, author: Seq<char>, p: PublishParamsView, now: u64) -> RegistryState {
        if valid_params(p) {
            let id = (self.contracts.len() + 1) as u32;
            RegistryState {
                contracts: self.contracts.push(new_record(id, author, p, now)),
                events: self.events.push(EventView::Published { contract_id: id }),
            }
        } else {
            self
        }
    }

    /// What `update_metadata` returns.
    pub open spec fn update_outcome(
        self,
        caller: Seq<char>,
        id: u32,
        description: Option<Seq<char>>,
        tags: Option<Seq<Seq<char>>>,
    ) -> Result<(), Error> {
        if !self.has(id) {
            Err(Error::ContractNotFound)
        } else if self.record(id).author != caller {
            Err(Error::UnauthorizedUpdate)
        } else if description is Some && !(1 <= description->0.len() <= 500) {
            Err(Error::InvalidMetadata)
        } else if tags is Some && tags->0.len() > 10 {
            Err(Error::InvalidMetadata)
        } else {
            Ok(())
        }
    }

    /// The record that `update_metadata` puts in place of `m`.
    pub open spec fn updated_record(
        m: ContractMetadataView,
        description: Option<Seq<char>>,
        documentation_url: Option<Seq<char>>,
        tags: Option<Seq<Seq<char>>>,
        now: u64,
    ) -> ContractMetadataView {
        ContractMetadataView {
            description: if description is Some { description->0 } else { m.description },
            documentation_url: if documentation_url is Some {
                documentation_url->0
            } else {
                m.documentation_url
            },
            tags: if tags is Some { tags->0 } else { m.tags },
            updated_at: now,
            ..m
        }
    }

    /// The registry after `update_metadata`.
    pub open spec fn after_update(
        self,
        caller: Seq<char>,
        id: u32,
        description: Option<Seq<char>>,
        documentation_url: Option<Seq<char>>,
        tags: Option<Seq<Seq<char>>>,
        now: u64,
    ) -> RegistryState {
        if self.update_outcome(caller, id, description, tags) is Ok {
            self.with_record(
                id,
                Self::updated_record(self.record(id), description, documentation_url, tags, now),
                EventView::Updated { contract_id: id },
            )
        } else {
            self
        }
    }

    /// What `verify_contract` and `increment_deployment_count` return.
    pub open spec fn found_outcome(self, id: u32) -> Result<(), Error> {
        if self.has(id) {
            Ok(())
        } else {
            Err(Error::ContractNotFound)
        }
    }

    /// The registry after `verify_contract`.
    pub open spec fn after_verify(self, id: u32, auditor: Seq<char>) -> RegistryState {
        if self.has(id) {
            self.with_record(
                id,
                ContractMetadataView { verified: true, ..self.record(id) },
                EventView::Verified { contract_id: id, auditor },
            )
        } else {
            self
        }
    }

    /// The registry after `increment_deployment_count`.
    pub open spec fn after_increment(self, id: u32) -> RegistryState {
        if self.has(id) {
            let total = saturating_succ(self.record(id).total_deployments);
            self.with_record(
                id,
                ContractMetadataView { total_deployments: total, ..self.record(id) },
                EventView::Deployed { contract_id: id, total_deployments: total },
            )
        } else {
            self
        }
    }
}

/// The category of each contract, in the order of publication.
pub open spec fn categories(contracts: Seq<ContractMetadataView>) -> Seq<Category> {
    Seq::new(contracts.len(), |i: int| contracts[i].category)
}

/// The records that a store holds, in the order of their identities.
pub open spec fn contracts_of(v: StorageView) -> Seq<ContractMetadataView> {
    Seq::new(v.counter as nat, |i: int| v.records[(i + 1) as u32])
}

/// The store holds one record for each identity issued, under that identity,
/// and each list names exactly the contracts that belong in it, oldest first.
pub open spec fn consistent(v: StorageView) -> bool {
    &&& forall|id: u32| v.records.contains_key(id) <==> 1 <= id <= v.counter
    &&& forall|id: u32| 1 <= id <= v.counter ==> (#[trigger] v.records[id]).id == id
    &&& v.all == first_ids(v.counter as nat)
    &&& forall|c: Category| #[trigger] v.by_category[c] == ids_where(categories(contracts_of(v)), c)
}

/// The store after a new record was filed: the counter advanced to the
/// identity of the record, the record stored under it, and the identity
/// added to the list of all contracts and to the list of its category.
pub open spec fn filed(v: StorageView, m: ContractMetadataView) -> StorageView {
    StorageView {
        counter: m.id,
        records: v.records.insert(m.id, m),
        all: v.all.push(m.id),
        by_category: v.by_category.insert(m.category, v.by_category[m.category].push(m.id)),
    }
}

/// Filing the record with the next identity keeps the store consistent and
/// adds the record after all others.
pub proof fn lemma_filed_consistent(v: StorageView, m: ContractMetadataView)
    requires
        consistent(v),
        v.counter < u32::MAX,
        m.id == v.counter + 1,
    ensures
        consistent(filed(v, m)),
        contracts_of(filed(v, m)) == contracts_of(v).push(m),
{
    let after = filed(v, m);
    let old_contracts = contracts_of(v);
    assert(contracts_of(after) =~= old_contracts.push(m));
    assert(after.all =~= first_ids(after.counter as nat));
    assert(categories(contracts_of(after)) =~= categories(old_contracts).push(m.category));
    assert forall|c: Category| #[trigger]
        after.by_category[c] == ids_where(categories(contracts_of(after)), c) by {
        lemma_ids_where_push(categories(old_contracts), m.category, c);
        assert(v.by_category[c] == ids_where(categories(old_contracts), c));
    }
}

/// Putting another record in place of one, with the same identity and
/// category, keeps the store consistent and changes that record alone.
pub proof fn lemma_replaced_consistent(v: StorageView, m: ContractMetadataView)
    requires
        consistent(v),
        1 <= m.id <= v.counter,
        m.category == v.records[m.id].category,
    ensures
        consistent(StorageView { records: v.records.insert(m.id, m), ..v }),
        contracts_of(StorageView { records: v.records.insert(m.id, m), ..v }) == contracts_of(
            v,
        ).update(m.id - 1, m),
{
    let after = StorageView { records: v.records.insert(m.id, m), ..v };
    assert(contracts_of(after) =~= contracts_of(v).update(m.id - 1, m));
    assert(categories(contracts_of(after)) =~= categories(contracts_of(v)));
    assert forall|id: u32| after.records.contains_key(id) <==> 1 <= id <= after.counter by {
        assert(v.records.contains_key(id) <==> 1 <= id <= v.counter);
    }
    assert forall|c: Category| #[trigger]
        after.by_category[c] == ids_where(categories(contracts_of(after)), c) by {
        assert(v.by_category[c] == ids_where(categories(contracts_of(v)), c));
    }
}

} // verus!
