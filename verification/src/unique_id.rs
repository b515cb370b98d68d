//! Ids that tell apart what was made in different places.
use vstd::prelude::*;

verus! {

/// An id that can only be compared with another.
///
/// Whoever makes ids gives each a token of its own: two ids are equal exactly when their
/// tokens are.
#[derive(Clone, Copy, Debug, PartialEq, Eq, Structural)]
pub struct UniqueId(u64);

impl UniqueId {
    /// The token of the id.
    pub closed spec fn token(self) -> u64 {
        self.0
    }

    /// The id of `token`.
    pub fn new(token: u64) -> (id: Self)
        ensures
            id.token() == token,
    {
        UniqueId(token)
    }

    /// The token of the id.
    pub fn get(self) -> (token: u64)
        ensures
            token == self.token(),
    {
        self.0
    }
}

} // verus!
