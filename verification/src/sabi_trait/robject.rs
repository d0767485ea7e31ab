//! The check that a value is of the type that it is taken for.

use crate::sabi_types::MaybeCmp;
use crate::std_types::utypeid::UTypeId;
use vstd::prelude::*;

verus! {

/// The failure to take a value for a type that it is not known to be of.
#[derive(Debug, Clone, Copy)]
pub struct UneraseError<T> {
    /// What was taken for the type.
    pub robject: T,
    /// The identity of the type that the value was made from, if that is
    /// known.
    pub expected_typeid: MaybeCmp<UTypeId>,
    /// The identity of the type that the value was taken for.
    pub actual_typeid: UTypeId,
}

impl<T> UneraseError<T> {
    /// The same failure about what `f` makes of the value.
    pub fn map<F: FnOnce(T) -> U, U>(self, f: F) -> (mapped: UneraseError<U>)
        requires
            f.requires((self.robject,)),
        ensures
            f.ensures((self.robject,), mapped.robject),
            mapped.expected_typeid == self.expected_typeid,
            mapped.actual_typeid == self.actual_typeid,
    {
        UneraseError {
            robject: f(self.robject),
            expected_typeid: self.expected_typeid,
            actual_typeid: self.actual_typeid,
        }
    }

    /// What was taken for the type.
    #[must_use]
    pub fn into_inner(self) -> (robject: T)
        ensures
            robject == self.robject,
    {
        self.robject
    }
}

/// Checks that a value made from the type with the identity
/// `expected_typeid` may be taken for the type with the identity
/// `actual_typeid`: the first identity must be known, and be the second.
pub fn sabi_check_same_utypeid(expected_typeid: MaybeCmp<UTypeId>, actual_typeid: UTypeId) -> (res:
    Result<(), UneraseError<()>>)
    ensures
        res is Ok <==> expected_typeid == MaybeCmp::Just(actual_typeid),
        res matches Err(e) ==> e == (UneraseError {
            robject: (),
            expected_typeid,
            actual_typeid,
        }),
{
    let same = match expected_typeid {
        MaybeCmp::Just(id) => id.same_as(&actual_typeid),
        MaybeCmp::Nothing => false,
    };
    if same {
        Ok(())
    } else {
        Err(UneraseError { robject: (), expected_typeid, actual_typeid })
    }
}

} // verus!
