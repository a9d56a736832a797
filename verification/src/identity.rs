//! The token that stands for one client.

use vstd::prelude::*;

verus! {

/// A client's identity: 256 bits handed out by the transport, held as two
/// words. Nothing is read from it but whether two of them are the same.
#[derive(Clone, Copy, Debug, PartialEq, Eq, Hash, Structural)]
pub struct Identity {
    pub hi: u128,
    pub lo: u128,
}

impl Identity {
    /// The identity whose upper word is `hi` and whose lower word is `lo`.
    pub fn from_words(hi: u128, lo: u128) -> (id: Identity)
        ensures
            id == (Identity { hi, lo }),
    {
        Identity { hi, lo }
    }

    /// Whether `self` and `other` name the same client.
    pub fn same(&self, other: &Identity) -> (r: bool)
        ensures
            r == (*self == *other),
    {
        self.hi == other.hi && self.lo == other.lo
    }
}

} // verus!
