//! The Distance-Sum strategy: the squared distance between two values of
//! one shape is the sum of the squared distances of their corresponding
//! fields; values of two different variants are incomparable.

use vstd::prelude::*;
use crate::shape::ShapeDescriptor;
use crate::shape::ShapeValue;

verus! {

/// The failure signal of the Distance-Sum strategy: the two values are
/// incomparable, either because they are instances of different variants or
/// because a field's own distance computation failed.
#[derive(Clone, Copy, Debug, PartialEq, Eq, Structural)]
pub struct DistanceError;

/// The squared-distance capability of a leaf type. A leaf's distance may
/// fail when the two values have no meaningful distance.
pub trait ComputeSquaredDistance {
    /// What the leaf's distance computation yields, `None` standing for
    /// failure.
    spec fn squared_distance_spec(&self, other: &Self) -> Option<u64>;

    fn compute_squared_distance(&self, other: &Self) -> (r: Result<u64, DistanceError>)
        ensures
            match self.squared_distance_spec(other) {
                Some(d) => r == Ok::<u64, DistanceError>(d),
                None => r == Err::<u64, DistanceError>(DistanceError),
            },
    ;
}

/// The sum of the distances of the first `i` leaf pairs, `None` as soon as
/// any of them fails.
pub open spec fn distance_fold<L: ComputeSquaredDistance>(a: Seq<L>, b: Seq<L>, i: int) -> Option<
    int,
>
    decreases i,
{
    if i <= 0 {
        Some(0)
    } else {
        match distance_fold(a, b, i - 1) {
            None => None,
            Some(s) => match a[i - 1].squared_distance_spec(&b[i - 1]) {
                None => None,
                Some(d) => Some(s + d),
            },
        }
    }
}

/// What `squared_distance` yields: the summed field distances when the two
/// values are instances of the same variant and every field distance
/// succeeds, and failure otherwise.
pub open spec fn distance_result<L: ComputeSquaredDistance>(
    a: ShapeValue<L>,
    b: ShapeValue<L>,
) -> Option<int> {
    if a.variant_index != b.variant_index {
        None
    } else {
        distance_fold(a.leaves@, b.leaves@, a.leaves@.len() as int)
    }
}

proof fn lemma_distance_fold_bound<L: ComputeSquaredDistance>(a: Seq<L>, b: Seq<L>, i: int)
    requires
        0 <= i,
    ensures
        match distance_fold(a, b, i) {
            Some(s) => 0 <= s <= i * (u64::MAX as int),
            None => true,
        },
    decreases i,
{
    if i > 0 {
        lemma_distance_fold_bound(a, b, i - 1);
        assert((i - 1) * (u64::MAX as int) + (u64::MAX as int) == i * (u64::MAX as int))
            by (nonlinear_arith);
    }
}

proof fn lemma_distance_fold_none_persists<L: ComputeSquaredDistance>(
    a: Seq<L>,
    b: Seq<L>,
    i: int,
    j: int,
)
    requires
        0 <= i <= j,
        distance_fold(a, b, i) is None,
    ensures
        distance_fold(a, b, j) is None,
    decreases j - i,
{
    if i < j {
        lemma_distance_fold_none_persists(a, b, i, j - 1);
    }
}

/// Evaluate the Distance-Sum strategy: fails exactly when the two values
/// are instances of different variants or some field's distance fails, and
/// otherwise yields the sum, in field order, of the per-field distances.
pub fn squared_distance<L: ComputeSquaredDistance>(
    shape: &ShapeDescriptor,
    a: &ShapeValue<L>,
    b: &ShapeValue<L>,
) -> (r: Result<u128, DistanceError>)
    requires
        shape.wf(),
        a.wf(shape),
        b.wf(shape),
    ensures
        match distance_result(*a, *b) {
            Some(s) => r == Ok::<u128, DistanceError>(s as u128),
            None => r == Err::<u128, DistanceError>(DistanceError),
        },
        a.variant_index != b.variant_index ==> r == Err::<u128, DistanceError>(DistanceError),
{
    if a.variant_index != b.variant_index {
        return Err(DistanceError);
    }
    let n = a.leaves.len();
    let mut sum: u128 = 0;
    let mut i: usize = 0;
    while i < n
        invariant
            i <= n,
            n == a.leaves@.len(),
            n == b.leaves@.len(),
            distance_fold(a.leaves@, b.leaves@, i as int) == Some(sum as int),
            sum as int <= (i as int) * (u64::MAX as int),
        decreases n - i,
    {
        match a.leaves[i].compute_squared_distance(&b.leaves[i]) {
            Ok(d) => {
                proof {
                    assert((i as int) * (u64::MAX as int) + (u64::MAX as int) == (i + 1) * (
                    u64::MAX as int)) by (nonlinear_arith);
                    assert((i + 1) * (u64::MAX as int) <= (n as int) * (u64::MAX as int))
                        by (nonlinear_arith)
                        requires
                            0 <= i,
                            i + 1 <= n as int,
                    ;
                    assert((n as int) * (u64::MAX as int) < u128::MAX as int) by (nonlinear_arith)
                        requires
                            n as int <= u64::MAX as int,
                    ;
                }
                sum = sum + (d as u128);
            },
            Err(_) => {
                proof {
                    lemma_distance_fold_none_persists(a.leaves@, b.leaves@, i + 1, n as int);
                }
                return Err(DistanceError);
            },
        }
        i += 1;
    }
    Ok(sum)
}

/// Law: when every leaf is at distance zero from itself, the distance from
/// a shape value to itself is zero.
pub proof fn lemma_distance_self<L: ComputeSquaredDistance>(v: ShapeValue<L>)
    requires
        forall|x: L| #[trigger] x.squared_distance_spec(&x) == Some(0u64),
    ensures
        distance_result(v, v) == Some(0int),
{
    lemma_distance_self_fold(v.leaves@, v.leaves@.len() as int);
}

proof fn lemma_distance_self_fold<L: ComputeSquaredDistance>(leaves: Seq<L>, i: int)
    requires
        0 <= i <= leaves.len(),
        forall|x: L| #[trigger] x.squared_distance_spec(&x) == Some(0u64),
    ensures
        distance_fold(leaves, leaves, i) == Some(0int),
    decreases i,
{
    if i > 0 {
        lemma_distance_self_fold(leaves, i - 1);
    }
}

/// Law: when every leaf distance is symmetric in its two arguments, the
/// distance between two values of one shape is symmetric too, failure
/// included.
pub proof fn lemma_distance_symmetric<L: ComputeSquaredDistance>(
    shape: ShapeDescriptor,
    a: ShapeValue<L>,
    b: ShapeValue<L>,
)
    requires
        shape.wf(),
        a.wf(&shape),
        b.wf(&shape),
        forall|x: L, y: L| #[trigger] x.squared_distance_spec(&y) == y.squared_distance_spec(&x),
    ensures
        distance_result(a, b) == distance_result(b, a),
{
    if a.variant_index == b.variant_index {
        lemma_distance_symmetric_fold(a.leaves@, b.leaves@, a.leaves@.len() as int);
    }
}

proof fn lemma_distance_symmetric_fold<L: ComputeSquaredDistance>(a: Seq<L>, b: Seq<L>, i: int)
    requires
        0 <= i,
        forall|x: L, y: L| #[trigger] x.squared_distance_spec(&y) == y.squared_distance_spec(&x),
    ensures
        distance_fold(a, b, i) == distance_fold(b, a, i),
    decreases i,
{
    if i > 0 {
        lemma_distance_symmetric_fold(a, b, i - 1);
    }
}

} // verus!
