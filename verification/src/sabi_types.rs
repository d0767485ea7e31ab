//! Small helper types used by layouts and type information.

use crate::std_types::utypeid::UTypeId;
use vstd::prelude::*;

verus! {

/// An optional value that only compares equal to another when both hold a
/// value: `Nothing` is different from everything, itself included.
#[derive(Debug, Clone, Copy)]
pub enum MaybeCmp<T> {
    Just(T),
    Nothing,
}

/// Whether two optional identities both hold a token, and the same one.
pub open spec fn same_identity(l: MaybeCmp<UTypeId>, r: MaybeCmp<UTypeId>) -> bool {
    match (l, r) {
        (MaybeCmp::Just(a), MaybeCmp::Just(b)) => a == b,
        _ => false,
    }
}

impl MaybeCmp<UTypeId> {
    /// Whether `self` and `other` both hold a token, and the same one.
    pub fn is_same(&self, other: &MaybeCmp<UTypeId>) -> (same: bool)
        ensures
            same == same_identity(*self, *other),
    {
        match self {
            MaybeCmp::Just(a) => match other {
                MaybeCmp::Just(b) => a.same_as(b),
                MaybeCmp::Nothing => false,
            },
            MaybeCmp::Nothing => false,
        }
    }
}

} // verus!
