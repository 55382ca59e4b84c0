use vstd::prelude::*;
use crate::allocator::IdAllocator;
use crate::guard::UniquenessGuard;
use crate::index::SecondaryIndex;
use crate::key::{key_set, Key};
use crate::principal::{Principal, ScopeKey};
use crate::review::types::{Review, ReviewView};
use crate::table::Table;

verus! {

/// The persistent state of the reviews: the counter of review identities,
/// the reviews by identity, who has rated which contract, who has voted for
/// which review, and the lists of reviews by contract and by principal.
pub struct Storage {
    ids: IdAllocator,
    reviews: Table<u32, Review>,
    reviewed: UniquenessGuard<ScopeKey>,
    upvoted: UniquenessGuard<ScopeKey>,
    by_contract: SecondaryIndex<u32>,
    by_user: SecondaryIndex<Principal>,
}

/// What a [`Storage`] holds.
#[verifier::ext_equal]
pub ghost struct StorageView {
    pub counter: u32,
    pub records: Map<u32, ReviewView>,
    pub reviewed: Set<(u32, Seq<char>)>,
    pub upvoted: Set<(u32, Seq<char>)>,
    pub by_contract: Map<u32, Seq<u32>>,
    pub by_user: Map<Seq<char>, Seq<u32>>,
}

impl View for Storage {
    type V = StorageView;

    closed spec fn view(&self) -> StorageView {
        StorageView {
            counter: self.ids.issued(),
            records: self.reviews.map().map_values(|r: Review| r@),
            reviewed: Set::new(|k: (u32, Seq<char>)| self.reviewed.marked(k)),
            upvoted: Set::new(|k: (u32, Seq<char>)| self.upvoted.marked(k)),
            by_contract: Map::total(|c: u32| self.by_contract.ids(c)),
            by_user: Map::total(|p: Seq<char>| self.by_user.ids(p)),
        }
    }
}

impl Storage {
    /// The representation is sound. Every function here keeps it so.
    pub closed spec fn wf(&self) -> bool {
        &&& self.reviews.wf()
        &&& self.reviewed.wf()
        &&& self.upvoted.wf()
        &&& self.by_contract.wf()
        &&& self.by_user.wf()
    }

    /// A store with the counter at 0, no review, nothing marked and empty
    /// lists.
    pub fn new() -> (r: Self)
        ensures
            r.wf(),
            r@.counter == 0,
            r@.records == Map::<u32, ReviewView>::empty(),
            r@.reviewed == Set::<(u32, Seq<char>)>::empty(),
            r@.upvoted == Set::<(u32, Seq<char>)>::empty(),
            r@.by_contract == Map::total(|c: u32| Seq::<u32>::empty()),
            r@.by_user == Map::total(|p: Seq<char>| Seq::<u32>::empty()),
    {
        let r = Storage {
            ids: IdAllocator::new(),
            reviews: Table::new(),
            reviewed: UniquenessGuard::new(),
            upvoted: UniquenessGuard::new(),
            by_contract: SecondaryIndex::new(),
            by_user: SecondaryIndex::new(),
        };
        assert(r@.records =~= Map::<u32, ReviewView>::empty());
        assert(r@.reviewed =~= Set::<(u32, Seq<char>)>::empty());
        assert(r@.upvoted =~= Set::<(u32, Seq<char>)>::empty());
        assert(r@.by_contract =~= Map::total(|c: u32| Seq::<u32>::empty()));
        assert(r@.by_user =~= Map::total(|p: Seq<char>| Seq::<u32>::empty()));
        r
    }
}

/// The identity issued last; 0 while there is no review.
pub fn get_counter(store: &Storage) -> (r: u32)
    ensures
        r == store@.counter,
{
    store.ids.current()
}

/// Advances the counter by one and returns its new value.
pub fn increment_counter(store: &mut Storage) -> (r: u32)
    requires
        old(store).wf(),
        old(store)@.counter < u32::MAX,
    ensures
        final(store).wf(),
        r == old(store)@.counter + 1,
        final(store)@ == (StorageView { counter: r, ..old(store)@ }),
{
    store.ids.next_id()
}

/// Stores a copy of `review` under `review_id`, in place of any review stored
/// there before.
pub fn save_review(store: &mut Storage, review_id: u32, review: &Review)
    requires
        old(store).wf(),
    ensures
        final(store).wf(),
        final(store)@ == (StorageView {
            records: old(store)@.records.insert(review_id, review@),
            ..old(store)@
        }),
{
    store.reviews.insert(review_id, review.clone());
    assert(store@.records =~= old(store)@.records.insert(review_id, review@));
}

/// A copy of the review stored under `review_id`, if there is one.
pub fn get_review(store: &Storage, review_id: u32) -> (r: Option<Review>)
    requires
        store.wf(),
    ensures
        match r {
            Some(m) => store@.records.contains_key(review_id) && m@ == store@.records[review_id],
            None => !store@.records.contains_key(review_id),
        },
{
    match store.reviews.get(&review_id) {
        Some(m) => Some(m.clone()),
        None => None,
    }
}

/// Whether the principal is marked as having rated `contract_id`.
pub fn has_reviewed(store: &Storage, contract_id: u32, reviewer: &Principal) -> (r: bool)
    requires
        store.wf(),
    ensures
        r == store@.reviewed.contains((contract_id, reviewer@)),
{
    let key = ScopeKey { id: contract_id, principal: reviewer.duplicate() };
    store.reviewed.check(&key)
}

/// Marks the principal as having rated `contract_id`.
pub fn mark_as_reviewed(store: &mut Storage, contract_id: u32, reviewer: &Principal)
    requires
        old(store).wf(),
    ensures
        final(store).wf(),
        final(store)@ == (StorageView {
            reviewed: old(store)@.reviewed.insert((contract_id, reviewer@)),
            ..old(store)@
        }),
{
    let key = ScopeKey { id: contract_id, principal: reviewer.duplicate() };
    store.reviewed.mark(key);
    assert(store@.reviewed =~= old(store)@.reviewed.insert((contract_id, reviewer@)));
}

/// Whether `voter` is marked as having voted for `review_id`.
pub fn has_upvoted(store: &Storage, review_id: u32, voter: &Principal) -> (r: bool)
    requires
        store.wf(),
    ensures
        r == store@.upvoted.contains((review_id, voter@)),
{
    let key = ScopeKey { id: review_id, principal: voter.duplicate() };
    store.upvoted.check(&key)
}

/// Marks `voter` as having voted for `review_id`.
pub fn mark_as_upvoted(store: &mut Storage, review_id: u32, voter: &Principal)
    requires
        old(store).wf(),
    ensures
        final(store).wf(),
        final(store)@ == (StorageView {
            upvoted: old(store)@.upvoted.insert((review_id, voter@)),
            ..old(store)@
        }),
{
    let key = ScopeKey { id: review_id, principal: voter.duplicate() };
    store.upvoted.mark(key);
    assert(store@.upvoted =~= old(store)@.upvoted.insert((review_id, voter@)));
}

/// The identities of the reviews listed under `contract_id`, in the order in
/// which they were added.
pub fn get_contract_reviews(store: &Storage, contract_id: u32) -> (r: Vec<u32>)
    requires
        store.wf(),
    ensures
        r@ == store@.by_contract[contract_id],
{
    store.by_contract.list(&contract_id)
}

/// Adds `review_id` at the end of the list of `contract_id`.
pub fn add_to_contract_reviews(store: &mut Storage, contract_id: u32, review_id: u32)
    requires
        old(store).wf(),
    ensures
        final(store).wf(),
        final(store)@ == (StorageView {
            by_contract: old(store)@.by_contract.insert(
                contract_id,
                old(store)@.by_contract[contract_id].push(review_id),
            ),
            ..old(store)@
        }),
{
    store.by_contract.append(&contract_id, review_id);
    assert(store@.by_contract =~= old(store)@.by_contract.insert(
        contract_id,
        old(store)@.by_contract[contract_id].push(review_id),
    ));
}

/// The identities of the reviews listed under the principal, in the order in
/// which they were added.
pub fn get_user_reviews(store: &Storage, reviewer: &Principal) -> (r: Vec<u32>)
    requires
        store.wf(),
    ensures
        r@ == store@.by_user[reviewer@],
{
    store.by_user.list(reviewer)
}

/// Adds `review_id` at the end of the list of the principal.
pub fn add_to_user_reviews(store: &mut Storage, reviewer: &Principal, review_id: u32)
    requires
        old(store).wf(),
    ensures
        final(store).wf(),
        final(store)@ == (StorageView {
            by_user: old(store)@.by_user.insert(
                reviewer@,
                old(store)@.by_user[reviewer@].push(review_id),
            ),
            ..old(store)@
        }),
{
    store.by_user.append(reviewer, review_id);
    assert(store@.by_user =~= old(store)@.by_user.insert(
        reviewer@,
        old(store)@.by_user[reviewer@].push(review_id),
    ));
}

/// Every mark of a vote: the review and the voter, each pair once.
pub fn get_upvotes(store: &Storage) -> (r: Vec<ScopeKey>)
    requires
        store.wf(),
    ensures
        key_set(r@) == store@.upvoted,
{
    let r = store.upvoted.list();
    assert(key_set(r@) =~= store@.upvoted);
    r
}

} // verus!
