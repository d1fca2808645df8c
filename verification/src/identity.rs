//! Identities of worlds.

use vstd::prelude::*;

verus! {

/// Stable token that names one registered world.
///
/// It is chosen by the caller at registration, compared by value, and never changed
/// by the exchange.
#[derive(Clone, Copy, Debug, PartialEq, Eq, Hash, Structural)]
pub struct WorldIdentifier {
    pub id: u64,
}

impl WorldIdentifier {
    /// The identifier with the given number.
    pub fn new(id: u64) -> (r: WorldIdentifier)
        ensures
            r.id == id,
    {
        WorldIdentifier { id }
    }

    /// The number behind this identifier.
    pub fn id(&self) -> (r: u64)
        ensures
            r == self.id,
    {
        self.id
    }
}

} // verus!
