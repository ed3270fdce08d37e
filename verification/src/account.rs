//! The prover-side account, reduced to what this core holds of it: the
//! secret scalar drawn from the entropy source.  Deriving the public
//! identifiers (view key, address) is the external account scheme's work
//! and stays outside this library.

use vstd::prelude::*;

use crate::entropy::Entropy;
use crate::field::Fp;

verus! {

/// An account: its secret scalar in the BLS12-377 scalar field.
#[derive(Clone, Copy, Debug, PartialEq, Eq, Structural)]
pub struct Account {
    pub private_key: Fp,
}

impl Account {
    /// Creates a new account with a freshly drawn secret scalar.
    pub fn new(entropy: &mut Entropy) -> Account {
        Account { private_key: entropy.draw() }
    }

    /// An account over the given secret scalar.
    pub fn from_private_key(private_key: Fp) -> (r: Account)
        ensures
            r.private_key == private_key,
    {
        Account { private_key }
    }

    /// Returns a reference to the secret scalar.
    pub fn private_key(&self) -> (r: &Fp)
        ensures
            r == self.private_key,
    {
        &self.private_key
    }
}

} // verus!
