//! Remembering which pairs of types were checked, so that each pair is
//! checked once.
//!
//! A pair is known when the same two layouts, with the same identities,
//! were checked before. An identity alone does not decide: nothing keeps two
//! types from carrying the same identity, so a verdict is only handed out
//! again for layouts that are equal, part for part, to the ones it was
//! reached on. What is handed out again is therefore always what the check
//! would find.

use crate::abi_stability::abi_checking::{
    check_layout_compatibility, layout_mismatches, mismatch_views, Mismatch,
};
use crate::abi_stability::stable_abi_trait::{AbiInfo, AbiInfoView, AbiInfoWrapper};
use vstd::prelude::*;

verus! {

/// The verdict on one pair of layouts.
#[derive(Debug, PartialEq, Eq)]
pub struct CheckedPair {
    pub interface: AbiInfo,
    pub implementation: AbiInfo,
    pub compatible: bool,
}

/// What is known of a pair of layouts after [`CheckedLayouts::check`].
#[derive(Debug, PartialEq, Eq)]
pub enum CheckOutcome {
    /// The pair was checked before, with this verdict.
    Known { compatible: bool },
    /// The pair was checked now, with this result.
    Checked(Result<(), Vec<Mismatch>>),
}

/// The verdicts on the pairs of layouts that were checked so far.
#[derive(Debug)]
pub struct CheckedLayouts {
    pairs: Vec<CheckedPair>,
}

/// Whether the layout `found` is compatible with the layout `expected`:
/// whether checking it finds no mismatch.
pub open spec fn compatible(expected: AbiInfoView, found: AbiInfoView) -> bool {
    layout_mismatches(expected, found, true).len() == 0
}

/// The verdicts recorded by the first `n` of `pairs`, a later one
/// replacing an earlier one on the same pair of layouts.
pub open spec fn verdicts(pairs: Seq<CheckedPair>, n: int) -> Map<(AbiInfoView, AbiInfoView), bool>
    decreases n,
{
    if n <= 0 || n > pairs.len() {
        Map::empty()
    } else {
        verdicts(pairs, n - 1).insert(
            (pairs[n - 1].interface@, pairs[n - 1].implementation@),
            pairs[n - 1].compatible,
        )
    }
}

/// Whether each verdict of `pairs` is what the check finds on its pair.
pub open spec fn verdicts_are_true(pairs: Seq<CheckedPair>) -> bool {
    forall|i: int|
        0 <= i < pairs.len() ==> (#[trigger] pairs[i]).compatible == compatible(
            pairs[i].interface@,
            pairs[i].implementation@,
        )
}

proof fn lemma_recorded_verdicts_are_true(pairs: Seq<CheckedPair>, n: int)
    requires
        verdicts_are_true(pairs),
        0 <= n <= pairs.len(),
    ensures
        forall|key: (AbiInfoView, AbiInfoView)| #[trigger]
            verdicts(pairs, n).contains_key(key) ==> verdicts(pairs, n)[key] == compatible(
                key.0,
                key.1,
            ),
    decreases n,
{
    if n > 0 {
        lemma_recorded_verdicts_are_true(pairs, n - 1);
        let last = (pairs[n - 1].interface@, pairs[n - 1].implementation@);
        assert forall|key: (AbiInfoView, AbiInfoView)| #[trigger]
            verdicts(pairs, n).contains_key(key) implies verdicts(pairs, n)[key] == compatible(
            key.0,
            key.1,
        ) by {
            if key == last {
                assert(verdicts(pairs, n)[key] == pairs[n - 1].compatible);
            } else {
                assert(verdicts(pairs, n - 1).contains_key(key));
                assert(verdicts(pairs, n)[key] == verdicts(pairs, n - 1)[key]);
            }
        }
    }
}

proof fn lemma_verdicts_of_prefix(shorter: Seq<CheckedPair>, longer: Seq<CheckedPair>, n: int)
    requires
        0 <= n <= shorter.len() <= longer.len(),
        forall|i: int| 0 <= i < shorter.len() ==> shorter[i] == longer[i],
    ensures
        verdicts(shorter, n) == verdicts(longer, n),
    decreases n,
{
    if n > 0 {
        lemma_verdicts_of_prefix(shorter, longer, n - 1);
    }
}

impl View for CheckedLayouts {
    type V = Map<(AbiInfoView, AbiInfoView), bool>;

    closed spec fn view(&self) -> Map<(AbiInfoView, AbiInfoView), bool> {
        verdicts(self.pairs@, self.pairs@.len() as int)
    }
}

impl CheckedLayouts {
    #[verifier::type_invariant]
    spec fn sound(self) -> bool {
        verdicts_are_true(self.pairs@)
    }

    /// No pair was checked.
    pub fn new() -> (checked: Self)
        ensures
            checked@ == Map::<(AbiInfoView, AbiInfoView), bool>::empty(),
    {
        CheckedLayouts { pairs: Vec::new() }
    }

    /// The verdict on the pair `interface` and `implementation`, if this
    /// pair of layouts was checked. The verdict is what checking the pair
    /// finds.
    #[verifier::loop_isolation(false)]
    pub fn lookup(
        &self,
        interface: &AbiInfoWrapper,
        implementation: &AbiInfoWrapper,
    ) -> (verdict: Option<bool>)
        ensures
            verdict == (if self@.contains_key((interface@, implementation@)) {
                Some(self@[(interface@, implementation@)])
            } else {
                None
            }),
            verdict matches Some(known) ==> known == compatible(interface@, implementation@),
    {
        proof {
            use_type_invariant(self);
            lemma_recorded_verdicts_are_true(self.pairs@, self.pairs@.len() as int);
        }
        let expected = interface.get();
        let found = implementation.get();
        let ghost key = (interface@, implementation@);
        let mut i: usize = self.pairs.len();
        while i > 0
            invariant
                i <= self.pairs.len(),
                key == (expected@, found@),
                self@.contains_key(key) == verdicts(self.pairs@, i as int).contains_key(key),
                self@.contains_key(key) ==> self@[key] == verdicts(self.pairs@, i as int)[key],
            decreases i,
        {
            i -= 1;
            let pair = &self.pairs[i];
            let same_identities = pair.interface.type_id.same_as(&expected.type_id)
                && pair.implementation.type_id.same_as(&found.type_id);
            if same_identities && pair.interface.equals(expected) && pair.implementation.equals(
                found,
            ) {
                assert((pair.interface@, pair.implementation@) == key);
                return Some(pair.compatible);
            }
            assert((pair.interface@, pair.implementation@) != key);
        }
        None
    }

    /// Checks the layout `implementation` against the layout `interface`
    /// unless this pair of layouts was checked before, and remembers the
    /// verdict. A verdict that is known from before is what checking the
    /// pair again would find.
    pub fn check(
        &mut self,
        interface: &AbiInfoWrapper,
        implementation: &AbiInfoWrapper,
    ) -> (outcome: CheckOutcome)
        ensures
            old(self)@.contains_key((interface@, implementation@)) ==> {
                &&& outcome == (CheckOutcome::Known {
                    compatible: compatible(interface@, implementation@),
                })
                &&& final(self)@ == old(self)@
            },
            !old(self)@.contains_key((interface@, implementation@)) ==> {
                &&& outcome matches CheckOutcome::Checked(res)
                &&& res is Ok <==> compatible(interface@, implementation@)
                &&& res matches Err(errs) ==> mismatch_views(errs@) == layout_mismatches(
                    interface@,
                    implementation@,
                    true,
                )
                &&& final(self)@ == old(self)@.insert((interface@, implementation@), res is Ok)
            },
    {
        proof {
            use_type_invariant(&*self);
        }
        match self.lookup(interface, implementation) {
            Some(compatible) => CheckOutcome::Known { compatible },
            None => {
                let res = check_layout_compatibility(interface, implementation);
                let pair = CheckedPair {
                    interface: interface.get().duplicate(),
                    implementation: implementation.get().duplicate(),
                    compatible: res.is_ok(),
                };
                let mut pairs: Vec<CheckedPair> = Vec::new();
                core::mem::swap(&mut pairs, &mut self.pairs);
                let ghost before = pairs@;
                pairs.push(pair);
                proof {
                    lemma_verdicts_of_prefix(before, pairs@, before.len() as int);
                    assert(verdicts_are_true(pairs@)) by {
                        assert forall|i: int| 0 <= i < pairs@.len() implies (
                        #[trigger] pairs@[i]).compatible == compatible(
                            pairs@[i].interface@,
                            pairs@[i].implementation@,
                        ) by {
                            if i < before.len() {
                                assert(pairs@[i] == before[i]);
                            }
                        }
                    }
                }
                self.pairs = pairs;
                CheckOutcome::Checked(res)
            },
        }
    }
}

} // verus!
