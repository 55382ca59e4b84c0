use vstd::prelude::*;
use vstd::std_specs::cmp::PartialEqSpecImpl;
use crate::key::Key;

verus! {

/// An authenticated actor: a publisher, deployer, voter or auditor.
/// Two principals are the same actor exactly when their keys are the same text.
#[derive(Debug)]
pub struct Principal {
    key: String,
}

impl View for Principal {
    type V = Seq<char>;

    closed spec fn view(&self) -> Seq<char> {
        self.key@
    }
}

impl Principal {
    /// The principal identified by `key`.
    pub fn new(key: String) -> (r: Self)
        ensures
            r@ == key@,
    {
        Principal { key }
    }

    /// The principal identified by the text `key`.
    pub fn from_str(key: &str) -> (r: Self)
        ensures
            r@ == key@,
    {
        Principal { key: key.to_owned() }
    }

    /// The text that identifies this principal.
    pub fn as_str(&self) -> (r: &str)
        ensures
            r@ == self@,
    {
        self.key.as_str()
    }
}

impl Clone for Principal {
    fn clone(&self) -> (r: Self)
        ensures
            r@ == self@,
    {
        Principal { key: self.key.clone() }
    }
}

impl PartialEq for Principal {
    fn eq(&self, other: &Self) -> (r: bool) {
        self.key == other.key
    }
}

impl PartialEqSpecImpl for Principal {
    open spec fn obeys_eq_spec() -> bool {
        true
    }

    open spec fn eq_spec(&self, other: &Self) -> bool {
        self@ == other@
    }
}

impl Key for Principal {
    fn same(&self, other: &Self) -> (r: bool) {
        self.key == other.key
    }

    fn duplicate(&self) -> (r: Self) {
        self.clone()
    }
}

/// The scope of an action that one principal may perform once: the entity
/// acted upon, and the actor.
#[derive(Debug)]
pub struct ScopeKey {
    pub id: u32,
    pub principal: Principal,
}

impl View for ScopeKey {
    type V = (u32, Seq<char>);

    open spec fn view(&self) -> (u32, Seq<char>) {
        (self.id, self.principal@)
    }
}

impl Key for ScopeKey {
    fn same(&self, other: &Self) -> (r: bool) {
        self.id == other.id && self.principal.same(&other.principal)
    }

    fn duplicate(&self) -> (r: Self) {
        ScopeKey { id: self.id, principal: self.principal.clone() }
    }
}

} // verus!
