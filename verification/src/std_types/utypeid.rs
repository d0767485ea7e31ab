//! Type identity tokens.

use vstd::prelude::*;

verus! {

/// An opaque token that identifies a type within one process.
///
/// Two layouts that carry the same token claim to describe the same type.
/// The claim is necessary for compatibility but not sufficient: the layouts
/// are still compared structurally.
#[derive(Debug, Clone, Copy, PartialEq, Eq, Hash, Structural)]
pub struct UTypeId {
    /// The token, as handed out by the identity service of the process.
    pub token: u64,
}

impl UTypeId {
    /// Wraps a token handed out by the identity service of the process.
    pub fn new(token: u64) -> (id: Self)
        ensures
            id == (UTypeId { token }),
    {
        UTypeId { token }
    }

    /// Whether two identities are the same token.
    pub fn same_as(&self, other: &UTypeId) -> (same: bool)
        ensures
            same == (*self == *other),
    {
        self.token == other.token
    }
}

} // verus!
