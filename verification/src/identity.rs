//! Identities of callers, sellers, buyers and administrators.

use vstd::prelude::*;

verus! {

/// An identity on the ledger, carried as its textual account key.
///
/// The substrate attests which identity authorized the current invocation;
/// operations receive that identity as an explicit `caller` argument and
/// compare it against the identity they require.
#[derive(Debug)]
pub struct Address {
    id: String,
}

impl View for Address {
    type V = Seq<char>;

    closed spec fn view(&self) -> Seq<char> {
        self.id@
    }
}

impl Address {
    /// Wraps the textual key of an account.
    pub fn new(id: String) -> (r: Address)
        ensures
            r@ == id@,
    {
        Address { id }
    }

    /// The textual key this identity was built from.
    pub fn key(&self) -> (r: &String)
        ensures
            r@ == self@,
    {
        &self.id
    }
}

impl Clone for Address {
    fn clone(&self) -> (r: Self)
        ensures
            r@ == self@,
    {
        Address { id: self.id.clone() }
    }
}

impl PartialEq for Address {
    fn eq(&self, other: &Address) -> (r: bool) {
        self.id == other.id
    }
}

impl vstd::std_specs::cmp::PartialEqSpecImpl for Address {
    open spec fn obeys_eq_spec() -> bool {
        true
    }

    open spec fn eq_spec(&self, other: &Address) -> bool {
        self@ == other@
    }
}

impl Eq for Address {

}

} // verus!
