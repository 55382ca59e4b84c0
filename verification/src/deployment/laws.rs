use vstd::prelude::*;
use crate::deployment::model::DeploymentState;
use crate::deployment::types::{DeploymentRecordView, Error, InitArgView};

verus! {

/// One recorded attempt to deploy, with its arguments.
pub ghost struct Call {
    pub contract_id: u32,
    pub deployer: Seq<char>,
    pub wasm_hash: Seq<u8>,
    pub salt: Seq<u8>,
    pub init_args: Seq<InitArgView>,
    pub instantiated: Option<Seq<char>>,
    pub now: u64,
}

/// Whether the call is accepted: all but a deployment for which no identity
/// is left.
pub open spec fn allowed(s: DeploymentState, c: Call) -> bool {
    c.instantiated is Some ==> s.deployments.len() < u32::MAX
}

/// The state after one call.
pub open spec fn step(s: DeploymentState, c: Call) -> DeploymentState {
    s.after_deploy(
        c.contract_id,
        c.deployer,
        c.wasm_hash,
        c.salt,
        c.init_args,
        c.instantiated,
        c.now,
    )
}

/// Whether each of the calls is accepted in turn.
pub open spec fn all_allowed(s: DeploymentState, calls: Seq<Call>) -> bool
    decreases calls.len(),
{
    calls.len() > 0 ==> all_allowed(s, calls.drop_last()) && allowed(
        run(s, calls.drop_last()),
        calls.last(),
    )
}

/// The state after a series of calls.
pub open spec fn run(s: DeploymentState, calls: Seq<Call>) -> DeploymentState
    decreases calls.len(),
{
    if calls.len() == 0 {
        s
    } else {
        step(run(s, calls.drop_last()), calls.last())
    }
}

/// A record once made is never changed or removed: after any series of
/// accepted calls the state is valid and every earlier record stands as it
/// was.
pub proof fn law_records_are_immutable(s: DeploymentState, calls: Seq<Call>)
    requires
        s.valid(),
        all_allowed(s, calls),
    ensures
        run(s, calls).valid(),
        s.deployments.len() <= run(s, calls).deployments.len(),
        forall|id: u32| s.has(id) ==> #[trigger] run(s, calls).record(id) == s.record(id),
    decreases calls.len(),
{
    if calls.len() > 0 {
        let mid = run(s, calls.drop_last());
        law_records_are_immutable(s, calls.drop_last());
        assert forall|id: u32| s.has(id) implies #[trigger] run(s, calls).record(id) == s.record(
            id,
        ) by {
            assert(mid.has(id));
            assert(mid.record(id) == s.record(id));
        }
    }
}

/// The first deployment returns 1, and every deployment returns an identity
/// greater than that of every deployment recorded before it, whatever was
/// called in between.
pub proof fn law_deploy_returns_fresh_id(s: DeploymentState, between: Seq<Call>, c: Call)
    requires
        s.valid(),
        all_allowed(s, between),
        c.instantiated is Some,
        run(s, between).deployments.len() < u32::MAX,
    ensures
        run(s, between).deploy_outcome(c.instantiated) is Ok,
        s == DeploymentState::empty() && between.len() == 0 ==> run(s, between).deploy_outcome(
            c.instantiated,
        ) == Ok::<u32, Error>(1),
        forall|i: int|
            0 <= i < s.deployments.len() ==> (#[trigger] s.deployments[i]).deployment_id < run(
                s,
                between,
            ).deploy_outcome(c.instantiated)->Ok_0,
{
    law_records_are_immutable(s, between);
}

/// Right after a deployment its record is found under the identity
/// returned, with what was submitted, the address at which the contract
/// stands, and the time of the call.
pub proof fn law_deployment_is_found(s: DeploymentState, c: Call)
    requires
        s.valid(),
        c.instantiated is Some,
        s.deployments.len() < u32::MAX,
    ensures
        ({
            let id = s.deploy_outcome(c.instantiated)->Ok_0;
            let after = step(s, c);
            &&& after.has(id)
            &&& after.record(id) == (DeploymentRecordView {
                deployment_id: id,
                contract_id: c.contract_id,
                deployer: c.deployer,
                deployed_contract_address: c.instantiated->0,
                deployed_at: c.now,
                wasm_hash: c.wasm_hash,
                salt: c.salt,
                init_args: c.init_args,
            })
        }),
{
}

/// A deployment whose instantiation failed is refused with
/// `DeploymentFailed` and leaves no trace.
pub proof fn law_failed_deploy_changes_nothing(s: DeploymentState, c: Call)
    requires
        c.instantiated is None,
    ensures
        s.deploy_outcome(c.instantiated) == Err::<u32, Error>(Error::DeploymentFailed),
        step(s, c) == s,
{
}

} // verus!
