//! The 64-bit identifier of a Steam account.

use vstd::prelude::*;

verus! {

/// A Steam account, by its 64-bit id.
#[derive(Debug, Clone, Copy, PartialEq, Eq, Structural)]
pub struct SteamId(pub u64);

impl SteamId {
    /// The id as a number.
    pub open spec fn value(self) -> u64 {
        self.0
    }

    /// The account with the given id.
    pub fn new(id: u64) -> (r: SteamId)
        ensures
            r.value() == id,
    {
        SteamId(id)
    }

    /// The id as a number.
    pub fn into_u64(self) -> (r: u64)
        ensures
            r == self.value(),
    {
        self.0
    }
}

} // verus!
