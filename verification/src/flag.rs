//! The Boolean-Or strategy: a value's flag is the logical OR of its
//! fields' own flags, starting from `false`. The operation is total.

use vstd::prelude::*;
use crate::shape::ShapeDescriptor;
use crate::shape::ShapeValue;

verus! {

/// The boolean flag capability of a leaf type.
pub trait HasViewportPercentage {
    /// What the leaf's flag check yields.
    spec fn has_viewport_percentage_spec(&self) -> bool;

    fn has_viewport_percentage(&self) -> (r: bool)
        ensures
            r == self.has_viewport_percentage_spec(),
    ;
}

/// The logical OR of the first `i` leaves' flags, starting from `false`.
pub open spec fn flag_fold<L: HasViewportPercentage>(leaves: Seq<L>, i: int) -> bool
    decreases i,
{
    if i <= 0 {
        false
    } else {
        flag_fold(leaves, i - 1) || leaves[i - 1].has_viewport_percentage_spec()
    }
}

/// Evaluate the Boolean-Or strategy: the OR of all the value's leaf flags;
/// in particular `false` for a variant with no fields.
pub fn has_viewport_percentage<L: HasViewportPercentage>(
    shape: &ShapeDescriptor,
    v: &ShapeValue<L>,
) -> (r: bool)
    requires
        shape.wf(),
        v.wf(shape),
    ensures
        r == flag_fold(v.leaves@, v.leaves@.len() as int),
        v.leaves@.len() == 0 ==> r == false,
{
    let n = v.leaves.len();
    let mut i: usize = 0;
    while i < n
        invariant
            i <= n,
            n == v.leaves@.len(),
            !flag_fold(v.leaves@, i as int),
        decreases n - i,
    {
        if v.leaves[i].has_viewport_percentage() {
            proof {
                lemma_flag_fold_true_persists(v.leaves@, (i + 1) as int, n as int);
            }
            return true;
        }
        i += 1;
    }
    false
}

proof fn lemma_flag_fold_true_persists<L: HasViewportPercentage>(leaves: Seq<L>, i: int, j: int)
    requires
        0 <= i <= j,
        flag_fold(leaves, i),
    ensures
        flag_fold(leaves, j),
    decreases j - i,
{
    if i < j {
        lemma_flag_fold_true_persists(leaves, i, j - 1);
    }
}

/// Law: the fold is the logical OR of the fields' own flags — it holds
/// exactly when some leaf's flag holds.
pub proof fn lemma_flag_fold_is_or<L: HasViewportPercentage>(leaves: Seq<L>, i: int)
    requires
        0 <= i <= leaves.len(),
    ensures
        flag_fold(leaves, i) <==> exists|j: int|
            0 <= j < i && #[trigger] leaves[j].has_viewport_percentage_spec(),
    decreases i,
{
    if i > 0 {
        lemma_flag_fold_is_or(leaves, i - 1);
    }
}

} // verus!
