//! A shared equality utility: whether a collection's items are all equal.

use vstd::prelude::*;
use vstd::std_specs::cmp::PartialEqSpec;

verus! {

/// A collection whose items all equal its head item. An empty collection
/// counts as uniform.
pub trait IsUniform: Sized {
    /// Every item beyond the head equals the head, under the item type's
    /// own equality specification.
    spec fn uniform_spec(&self) -> bool;

    /// The item type's equality is known to agree with its specification.
    spec fn eq_decidable() -> bool;

    fn uniform(self) -> (r: bool)
        ensures
            Self::eq_decidable() ==> r == self.uniform_spec(),
    ;
}

impl<T: Eq> IsUniform for Vec<T> {
    open spec fn uniform_spec(&self) -> bool {
        forall|i: int| 1 <= i < self@.len() ==> self@[0].eq_spec(&self@[i])
    }

    open spec fn eq_decidable() -> bool {
        T::obeys_eq_spec()
    }

    fn uniform(self) -> (r: bool) {
        let n = self.len();
        if n == 0 {
            return true;
        }
        for i in 1..n
            invariant
                n == self@.len(),
                n > 0,
                T::obeys_eq_spec() ==> forall|k: int| 1 <= k < i ==> self@[0].eq_spec(&self@[k]),
        {
            if !(self[0] == self[i]) {
                return false;
            }
        }
        true
    }
}

} // verus!
