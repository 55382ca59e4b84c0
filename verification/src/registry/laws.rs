use vstd::prelude::*;
use crate::registry::model::{has_category, new_record, valid_params, RegistryState};
use crate::registry::types::{Category, ContractMetadataView, Error, PublishParamsView};

verus! {

/// One call of a registry operation that changes state, with its arguments.
pub ghost enum Call {
    Publish { author: Seq<char>, params: PublishParamsView, now: u64 },
    Update {
        caller: Seq<char>,
        id: u32,
        description: Option<Seq<char>>,
        documentation_url: Option<Seq<char>>,
        tags: Option<Seq<Seq<char>>>,
        now: u64,
    },
    Verify { id: u32, auditor: Seq<char> },
    Increment { id: u32 },
    TakeEvents,
}

/// Whether the registry accepts the call: all but a publication for which no
/// identity is left.
pub open spec fn allowed(s: RegistryState, c: Call) -> bool {
    c matches Call::Publish { params, .. } ==> (valid_params(params) ==> s.contracts.len() < u32::MAX)
}

/// The registry after one call.
pub open spec fn step(s: RegistryState, c: Call) -> RegistryState {
    match c {
        Call::Publish { author, params, now } => s.after_publish(author, params, now),
        Call::Update { caller, id, description, documentation_url, tags, now } => s.after_update(
            caller,
            id,
            description,
            documentation_url,
            tags,
            now,
        ),
        Call::Verify { id, auditor } => s.after_verify(id, auditor),
        Call::Increment { id } => s.after_increment(id),
        Call::TakeEvents => RegistryState { events: Seq::empty(), ..s },
    }
}

/// Whether the registry accepts each of the calls in turn.
pub open spec fn all_allowed(s: RegistryState, calls: Seq<Call>) -> bool
    decreases calls.len(),
{
    calls.len() > 0 ==> all_allowed(s, calls.drop_last()) && allowed(
        run(s, calls.drop_last()),
        calls.last(),
    )
}

/// The registry after a series of calls.
pub open spec fn run(s: RegistryState, calls: Seq<Call>) -> RegistryState
    decreases calls.len(),
{
    if calls.len() == 0 {
        s
    } else {
        step(run(s, calls.drop_last()), calls.last())
    }
}

/// No call removes or renumbers a contract: after any call the registry is
/// still numbered 1, 2, 3, ..., holds at least as many contracts, and each
/// contract has kept its identity, publisher, category and time of
/// publication.
pub proof fn law_step_keeps_contracts(s: RegistryState, c: Call)
    requires
        s.valid(),
        allowed(s, c),
    ensures
        step(s, c).valid(),
        s.contracts.len() <= step(s, c).contracts.len(),
        forall|id: u32|
            s.has(id) ==> {
                let m = #[trigger] step(s, c).record(id);
                &&& m.id == id
                &&& m.author == s.record(id).author
                &&& m.category == s.record(id).category
                &&& m.published_at == s.record(id).published_at
            },
{
}

/// The same of any series of calls.
pub proof fn law_run_keeps_contracts(s: RegistryState, calls: Seq<Call>)
    requires
        s.valid(),
        all_allowed(s, calls),
    ensures
        run(s, calls).valid(),
        s.contracts.len() <= run(s, calls).contracts.len(),
        forall|id: u32|
            s.has(id) ==> {
                let m = #[trigger] run(s, calls).record(id);
                &&& m.id == id
                &&& m.author == s.record(id).author
                &&& m.category == s.record(id).category
                &&& m.published_at == s.record(id).published_at
            },
    decreases calls.len(),
{
    if calls.len() > 0 {
        let mid = run(s, calls.drop_last());
        law_run_keeps_contracts(s, calls.drop_last());
        law_step_keeps_contracts(mid, calls.last());
        assert forall|id: u32| s.has(id) implies {
            let m = #[trigger] run(s, calls).record(id);
            &&& m.id == id
            &&& m.author == s.record(id).author
            &&& m.category == s.record(id).category
            &&& m.published_at == s.record(id).published_at
        } by {
            assert(mid.has(id));
            let m0 = mid.record(id);
            let m1 = step(mid, calls.last()).record(id);
            assert(m1.id == id);
        }
    }
}

/// The first publication returns 1, and every publication returns an
/// identity greater than that of every contract published before it.
pub proof fn law_publish_returns_fresh_id(s: RegistryState, p: PublishParamsView)
    requires
        s.valid(),
        valid_params(p),
        s.contracts.len() < u32::MAX,
    ensures
        s.publish_outcome(p) == Ok::<u32, Error>((s.contracts.len() + 1) as u32),
        s == RegistryState::empty() ==> s.publish_outcome(p) == Ok::<u32, Error>(1),
        forall|i: int| 0 <= i < s.contracts.len() ==> (#[trigger] s.contracts[i]).id < s.publish_outcome(p)->Ok_0,
{
}

/// Of two publications, the later returns the greater identity, whatever
/// was called in between.
pub proof fn law_later_publish_returns_greater_id(
    s: RegistryState,
    author: Seq<char>,
    p: PublishParamsView,
    now: u64,
    between: Seq<Call>,
    q: PublishParamsView,
)
    requires
        s.valid(),
        valid_params(p),
        s.contracts.len() < u32::MAX,
        all_allowed(s.after_publish(author, p, now), between),
        valid_params(q),
        run(s.after_publish(author, p, now), between).contracts.len() < u32::MAX,
    ensures
        s.publish_outcome(p) is Ok,
        run(s.after_publish(author, p, now), between).publish_outcome(q) is Ok,
        s.publish_outcome(p)->Ok_0 < run(s.after_publish(author, p, now), between).publish_outcome(
            q,
        )->Ok_0,
{
    let s1 = s.after_publish(author, p, now);
    law_step_keeps_contracts(s, Call::Publish { author, params: p, now });
    law_run_keeps_contracts(s1, between);
}

/// Right after its publication a contract is found under the identity
/// returned, with what was submitted, unverified, never deployed, and both
/// times set to the time of the call.
pub proof fn law_published_contract_is_found(
    s: RegistryState,
    author: Seq<char>,
    p: PublishParamsView,
    now: u64,
)
    requires
        s.valid(),
        valid_params(p),
        s.contracts.len() < u32::MAX,
    ensures
        ({
            let id = s.publish_outcome(p)->Ok_0;
            let after = s.after_publish(author, p, now);
            &&& after.has(id)
            &&& after.record(id) == new_record(id, author, p, now)
            &&& !after.record(id).verified
            &&& after.record(id).total_deployments == 0
            &&& after.record(id).published_at == now
            &&& after.record(id).updated_at == now
            &&& after.record(id).author == author
        }),
{
}

/// A submission that is not acceptable is refused with `InvalidMetadata`
/// and leaves the registry as it was, so that the next publication gets the
/// identity that it would have got without the refused one.
pub proof fn law_refused_publish_changes_nothing(
    s: RegistryState,
    author: Seq<char>,
    p: PublishParamsView,
    now: u64,
)
    requires
        !valid_params(p),
    ensures
        s.publish_outcome(p) == Err::<u32, Error>(Error::InvalidMetadata),
        s.after_publish(author, p, now) == s,
{
}

/// A name that is empty or longer than 100 characters makes a submission
/// unacceptable.
pub proof fn law_name_bounds(p: PublishParamsView)
    requires
        p.name.len() == 0 || p.name.len() > 100,
    ensures
        !valid_params(p),
{
}

/// An update by anyone but the publisher is refused with
/// `UnauthorizedUpdate` and leaves the registry as it was.
pub proof fn law_update_by_other_changes_nothing(
    s: RegistryState,
    caller: Seq<char>,
    id: u32,
    description: Option<Seq<char>>,
    documentation_url: Option<Seq<char>>,
    tags: Option<Seq<Seq<char>>>,
    now: u64,
)
    requires
        s.has(id),
        s.record(id).author != caller,
    ensures
        s.update_outcome(caller, id, description, tags) == Err::<(), Error>(
            Error::UnauthorizedUpdate,
        ),
        s.after_update(caller, id, description, documentation_url, tags, now) == s,
{
}

/// Every refused call leaves the registry as it was.
pub proof fn law_refusal_changes_nothing(s: RegistryState, c: Call)
    ensures
        c matches Call::Publish { author, params, now } ==> s.publish_outcome(params) is Err
            ==> step(s, c) == s,
        c matches Call::Update { caller, id, description, documentation_url, tags, now }
            ==> s.update_outcome(caller, id, description, tags) is Err ==> step(s, c) == s,
        c matches Call::Verify { id, auditor } ==> s.found_outcome(id) is Err ==> step(s, c) == s,
        c matches Call::Increment { id } ==> s.found_outcome(id) is Err ==> step(s, c) == s,
{
}

/// An update never changes whether a contract is verified, and verifying
/// twice is the same as verifying once, but for the second notification.
pub proof fn law_verified_is_one_way(s: RegistryState, c: Call, id: u32)
    requires
        s.valid(),
        allowed(s, c),
        s.has(id),
        s.record(id).verified,
    ensures
        step(s, c).record(id).verified,
{
}

/// A search by category returns the contracts of that category and no
/// others, in the order of publication.
pub proof fn law_category_search_is_exact(s: RegistryState, c: Category)
    requires
        s.valid(),
    ensures
        ({
            let found = s.contracts.filter(has_category(c));
            &&& forall|j: int| 0 <= j < found.len() ==> (#[trigger] found[j]).category == c
            &&& forall|j: int| 0 <= j < found.len() ==> s.has((#[trigger] found[j]).id) && s.record(found[j].id) == found[j]
            &&& forall|i: int|
                0 <= i < s.contracts.len() && s.contracts[i].category == c ==> found.contains(
                    #[trigger] s.contracts[i],
                )
            &&& forall|j: int, k: int| 0 <= j < k < found.len() ==> (#[trigger] found[j]).id < (#[trigger] found[k]).id
        }),
    decreases s.contracts.len(),
{
    reveal(Seq::filter);
    let found = s.contracts.filter(has_category(c));
    if s.contracts.len() > 0 {
        let s0 = RegistryState { contracts: s.contracts.drop_last(), ..s };
        let found0 = s0.contracts.filter(has_category(c));
        law_category_search_is_exact(s0, c);
        let last = s.contracts.last();
        assert forall|j: int| 0 <= j < found.len() implies s.has((#[trigger] found[j]).id)
            && s.record(found[j].id) == found[j] && found[j].category == c by {
            if j < found0.len() {
                assert(found[j] == found0[j]);
                assert(s0.has(found0[j].id));
                assert(s0.record(found0[j].id) == found0[j]);
            }
        }
        assert forall|i: int|
            0 <= i < s.contracts.len() && s.contracts[i].category == c implies found.contains(
            #[trigger] s.contracts[i],
        ) by {
            if i < s0.contracts.len() {
                assert(s0.contracts[i] == s.contracts[i]);
                assert(found0.contains(s0.contracts[i]));
                let j = choose|j: int| 0 <= j < found0.len() && found0[j] == s0.contracts[i];
                assert(found[j] == s.contracts[i]);
            } else {
                assert(found[found.len() - 1] == s.contracts[i]);
            }
        }
        assert forall|j: int, k: int| 0 <= j < k < found.len() implies (#[trigger] found[j]).id < (
        #[trigger] found[k]).id by {
            if k < found0.len() {
                assert(found[j] == found0[j] && found[k] == found0[k]);
            } else {
                assert(found[j] == found0[j]);
                assert(s0.has(found0[j].id));
            }
        }
    }
}

/// The registry after `n` counted deployments of one contract.
pub open spec fn after_increments(s: RegistryState, id: u32, n: nat) -> RegistryState
    decreases n,
{
    if n == 0 {
        s
    } else {
        after_increments(s, id, (n - 1) as nat).after_increment(id)
    }
}

/// Counting `n` deployments of a contract raises its count by `n`, but not
/// beyond the greatest number that the count can hold; nothing else about
/// the contract changes.
pub proof fn law_increments_add_up(s: RegistryState, id: u32, n: nat)
    requires
        s.has(id),
    ensures
        after_increments(s, id, n).has(id),
        after_increments(s, id, n).contracts.len() == s.contracts.len(),
        after_increments(s, id, n).record(id) == (ContractMetadataView {
            total_deployments: if s.record(id).total_deployments + n <= u32::MAX {
                (s.record(id).total_deployments + n) as u32
            } else {
                u32::MAX
            },
            ..s.record(id)
        }),
    decreases n,
{
    if n > 0 {
        law_increments_add_up(s, id, (n - 1) as nat);
    }
}

} // verus!
