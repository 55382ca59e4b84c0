use vstd::prelude::*;
use crate::principal::Principal;

verus! {

/// Why an operation on deployments was refused.
#[derive(Clone, Copy, Debug, PartialEq, Eq, PartialOrd, Ord, Structural)]
pub enum Error {
    ContractNotFound,
    DeploymentFailed,
    InvalidParameters,
    InvalidWasmHash,
    UnauthorizedAccess,
}

impl Error {
    /// The number under which the error is reported.
    pub fn code(self) -> (r: u32)
        ensures
            r == match self {
                Error::ContractNotFound => 1u32,
                Error::DeploymentFailed => 2u32,
                Error::InvalidParameters => 3u32,
                Error::InvalidWasmHash => 4u32,
                Error::UnauthorizedAccess => 5u32,
            },
    {
        match self {
            Error::ContractNotFound => 1,
            Error::DeploymentFailed => 2,
            Error::InvalidParameters => 3,
            Error::InvalidWasmHash => 4,
            Error::UnauthorizedAccess => 5,
        }
    }
}

/// One argument for the constructor of a contract: a principal, or a value
/// that the host represents in 64 bits.
#[derive(Debug, PartialEq)]
pub enum InitArg {
    Address(Principal),
    Value(u64),
}

/// The mathematical content of an [`InitArg`].
pub ghost enum InitArgView {
    Address(Seq<char>),
    Value(u64),
}

impl View for InitArg {
    type V = InitArgView;

    open spec fn view(&self) -> InitArgView {
        match self {
            InitArg::Address(p) => InitArgView::Address(p@),
            InitArg::Value(v) => InitArgView::Value(*v),
        }
    }
}

impl Clone for InitArg {
    fn clone(&self) -> (r: Self)
        ensures
            r@ == self@,
    {
        match self {
            InitArg::Address(p) => InitArg::Address(p.clone()),
            InitArg::Value(v) => InitArg::Value(*v),
        }
    }
}

/// The contents of a list of constructor arguments.
pub open spec fn arg_views(s: Seq<InitArg>) -> Seq<InitArgView> {
    s.map_values(|a: InitArg| a@)
}

/// A copy of a list of constructor arguments.
pub fn clone_args(v: &Vec<InitArg>) -> (r: Vec<InitArg>)
    ensures
        arg_views(r@) == arg_views(v@),
{
    let mut r: Vec<InitArg> = Vec::new();
    let mut i: usize = 0;
    while i < v.len()
        invariant
            i <= v@.len(),
            arg_views(r@) == arg_views(v@).take(i as int),
        decreases v@.len() - i,
    {
        let ghost before = r@;
        assert(arg_views(before).len() == i);
        let arg = v[i].clone();
        r.push(arg);
        assert(arg_views(r@) =~= arg_views(v@).take(i + 1)) by {
            assert forall|k: int| 0 <= k < i implies arg_views(r@)[k] == arg_views(v@)[k] by {
                assert(r@[k] == before[k]);
                assert(arg_views(before)[k] == arg_views(v@).take(i as int)[k]);
            }
        }
        i += 1;
    }
    assert(arg_views(v@).take(v@.len() as int) =~= arg_views(v@));
    r
}

/// The record of one deployment of a registered contract.
#[derive(Debug, PartialEq)]
pub struct DeploymentRecord {
    pub deployment_id: u32,
    pub contract_id: u32,
    pub deployer: Principal,
    pub deployed_contract_address: Principal,
    pub deployed_at: u64,
    pub wasm_hash: [u8; 32],
    pub salt: [u8; 32],
    pub init_args: Vec<InitArg>,
}

/// The mathematical content of a [`DeploymentRecord`].
pub ghost struct DeploymentRecordView {
    pub deployment_id: u32,
    pub contract_id: u32,
    pub deployer: Seq<char>,
    pub deployed_contract_address: Seq<char>,
    pub deployed_at: u64,
    pub wasm_hash: Seq<u8>,
    pub salt: Seq<u8>,
    pub init_args: Seq<InitArgView>,
}

impl View for DeploymentRecord {
    type V = DeploymentRecordView;

    open spec fn view(&self) -> DeploymentRecordView {
        DeploymentRecordView {
            deployment_id: self.deployment_id,
            contract_id: self.contract_id,
            deployer: self.deployer@,
            deployed_contract_address: self.deployed_contract_address@,
            deployed_at: self.deployed_at,
            wasm_hash: self.wasm_hash@,
            salt: self.salt@,
            init_args: arg_views(self.init_args@),
        }
    }
}

impl Clone for DeploymentRecord {
    fn clone(&self) -> (r: Self)
        ensures
            r@ == self@,
    {
        DeploymentRecord {
            deployment_id: self.deployment_id,
            contract_id: self.contract_id,
            deployer: self.deployer.clone(),
            deployed_contract_address: self.deployed_contract_address.clone(),
            deployed_at: self.deployed_at,
            wasm_hash: self.wasm_hash,
            salt: self.salt,
            init_args: clone_args(&self.init_args),
        }
    }
}

} // verus!
