//! A minimal contract used to exercise the embedding: it stores an admin
//! identity and answers a fixed greeting.

use vstd::prelude::*;

use crate::identity::Address;

verus! {

/// The minimal contract state: only the stored admin identity.
pub struct SimpleContract {
    admin: Option<Address>,
}

impl View for SimpleContract {
    type V = Option<Seq<char>>;

    closed spec fn view(&self) -> Option<Seq<char>> {
        match self.admin {
            Some(a) => Some(a@),
            None => None,
        }
    }
}

impl SimpleContract {
    /// The fresh state: no admin stored yet.
    pub fn new() -> (r: SimpleContract)
        ensures
            r@ == Option::<Seq<char>>::None,
    {
        SimpleContract { admin: None }
    }

    /// The stored admin identity, if `initialize` has run.
    pub fn admin(&self) -> (r: &Option<Address>)
        ensures
            match r {
                Some(a) => self@ == Some(a@),
                None => self@ == Option::<Seq<char>>::None,
            },
    {
        &self.admin
    }

    /// Stores `admin` as the admin identity, overwriting any earlier one.
    pub fn initialize(&mut self, admin: Address)
        ensures
            final(self)@ == Some(admin@),
    {
        self.admin = Some(admin);
    }

    /// Answers the fixed greeting, whoever is greeted.
    pub fn hello(&self, to: Address) -> (r: String)
        ensures
            r@ == "Hello World"@,
    {
        let greeting = "Hello World".to_owned();
        let _unused = to;
        greeting
    }
}

} // verus!
