//! The Transform-Reconstruct strategies: decompose a value into its leaf
//! bindings, transform each leaf, and recompose a value of the same variant
//! with the same field arrangement. Two instances share the algorithm: the
//! value-level one, and the one whose forward transform takes a read-only
//! context.

use vstd::prelude::*;
use crate::shape::ShapeDescriptor;
use crate::shape::ShapeValue;

verus! {

/// The value-level transform capability of a leaf type: a forward
/// transform into the leaf's animated representation and its inverse.
pub trait ToAnimatedValue: Sized {
    type AnimatedValue;

    /// What the forward transform yields.
    spec fn to_animated_spec(&self) -> Self::AnimatedValue;

    /// What the inverse transform yields.
    spec fn from_animated_spec(animated: &Self::AnimatedValue) -> Self;

    fn to_animated_value(self) -> (r: Self::AnimatedValue)
        ensures
            r == self.to_animated_spec(),
    ;

    fn from_animated_value(animated: Self::AnimatedValue) -> (r: Self)
        ensures
            r == Self::from_animated_spec(&animated),
    ;
}

/// The context-taking transform capability of a leaf type: the forward
/// transform reads an auxiliary context; the inverse takes none.
pub trait ToComputedValue<C>: Sized {
    type ComputedValue;

    /// What the forward transform yields under the given context.
    spec fn to_computed_spec(&self, context: &C) -> Self::ComputedValue;

    /// What the inverse transform yields.
    spec fn from_computed_spec(computed: &Self::ComputedValue) -> Self;

    fn to_computed_value(&self, context: &C) -> (r: Self::ComputedValue)
        ensures
            r == self.to_computed_spec(context),
    ;

    fn from_computed_value(computed: &Self::ComputedValue) -> (r: Self)
        ensures
            r == Self::from_computed_spec(computed),
    ;
}

/// Evaluate the forward value-level transform: the result is an instance
/// of the same variant, each leaf replaced by its own forward transform.
pub fn to_animated_value<L: ToAnimatedValue>(shape: &ShapeDescriptor, v: ShapeValue<L>) -> (r:
    ShapeValue<L::AnimatedValue>)
    requires
        shape.wf(),
        v.wf(shape),
    ensures
        r.variant_index == v.variant_index,
        r.leaves@ == v.leaves@.map_values(|x: L| x.to_animated_spec()),
        r.wf(shape),
{
    let ShapeValue { variant_index, mut leaves } = v;
    let ghost orig = leaves@;
    let mut out: Vec<L::AnimatedValue> = Vec::new();
    let mut i: usize = 0;
    let n = leaves.len();
    while i < n
        invariant
            i <= n,
            n == orig.len(),
            leaves@ == orig.skip(i as int),
            out@ == orig.take(i as int).map_values(|x: L| x.to_animated_spec()),
        decreases n - i,
    {
        let x = leaves.remove(0);
        out.push(x.to_animated_value());
        proof {
            assert(leaves@ =~= orig.skip(i + 1));
            assert(out@ =~= orig.take(i + 1).map_values(|x: L| x.to_animated_spec()));
        }
        i += 1;
    }
    proof {
        assert(orig.take(n as int) =~= orig);
    }
    ShapeValue { variant_index, leaves: out }
}

/// Evaluate the inverse value-level transform: the result is an instance
/// of the same variant, each leaf replaced by its own inverse transform.
pub fn from_animated_value<L: ToAnimatedValue>(
    shape: &ShapeDescriptor,
    animated: ShapeValue<L::AnimatedValue>,
) -> (r: ShapeValue<L>)
    requires
        shape.wf(),
        animated.wf(shape),
    ensures
        r.variant_index == animated.variant_index,
        r.leaves@ == animated.leaves@.map_values(|y: L::AnimatedValue| L::from_animated_spec(&y)),
        r.wf(shape),
{
    let ShapeValue { variant_index, mut leaves } = animated;
    let ghost orig = leaves@;
    let mut out: Vec<L> = Vec::new();
    let mut i: usize = 0;
    let n = leaves.len();
    while i < n
        invariant
            i <= n,
            n == orig.len(),
            leaves@ == orig.skip(i as int),
            out@ == orig.take(i as int).map_values(|y: L::AnimatedValue| L::from_animated_spec(&y)),
        decreases n - i,
    {
        let y = leaves.remove(0);
        out.push(L::from_animated_value(y));
        proof {
            assert(leaves@ =~= orig.skip(i + 1));
            assert(out@ =~= orig.take(i + 1).map_values(
                |y: L::AnimatedValue| L::from_animated_spec(&y),
            ));
        }
        i += 1;
    }
    proof {
        assert(orig.take(n as int) =~= orig);
    }
    ShapeValue { variant_index, leaves: out }
}

/// Evaluate the forward context-taking transform: the result is an
/// instance of the same variant, each leaf replaced by its own forward
/// transform under the one shared context.
pub fn to_computed_value<C, L: ToComputedValue<C>>(
    shape: &ShapeDescriptor,
    v: &ShapeValue<L>,
    context: &C,
) -> (r: ShapeValue<L::ComputedValue>)
    requires
        shape.wf(),
        v.wf(shape),
    ensures
        r.variant_index == v.variant_index,
        r.leaves@ == v.leaves@.map_values(|x: L| x.to_computed_spec(context)),
        r.wf(shape),
{
    let mut out: Vec<L::ComputedValue> = Vec::new();
    let mut i: usize = 0;
    let n = v.leaves.len();
    while i < n
        invariant
            i <= n,
            n == v.leaves@.len(),
            out@ == v.leaves@.take(i as int).map_values(|x: L| x.to_computed_spec(context)),
        decreases n - i,
    {
        out.push(v.leaves[i].to_computed_value(context));
        proof {
            assert(out@ =~= v.leaves@.take(i + 1).map_values(
                |x: L| x.to_computed_spec(context),
            ));
        }
        i += 1;
    }
    proof {
        assert(v.leaves@.take(n as int) =~= v.leaves@);
    }
    ShapeValue { variant_index: v.variant_index, leaves: out }
}

/// Evaluate the inverse context-taking transform: the result is an
/// instance of the same variant, each leaf replaced by its own inverse
/// transform.
pub fn from_computed_value<C, L: ToComputedValue<C>>(
    shape: &ShapeDescriptor,
    computed: &ShapeValue<L::ComputedValue>,
) -> (r: ShapeValue<L>)
    requires
        shape.wf(),
        computed.wf(shape),
    ensures
        r.variant_index == computed.variant_index,
        r.leaves@ == computed.leaves@.map_values(
            |y: L::ComputedValue| L::from_computed_spec(&y),
        ),
        r.wf(shape),
{
    let mut out: Vec<L> = Vec::new();
    let mut i: usize = 0;
    let n = computed.leaves.len();
    while i < n
        invariant
            i <= n,
            n == computed.leaves@.len(),
            out@ == computed.leaves@.take(i as int).map_values(
                |y: L::ComputedValue| L::from_computed_spec(&y),
            ),
        decreases n - i,
    {
        out.push(L::from_computed_value(&computed.leaves[i]));
        proof {
            assert(out@ =~= computed.leaves@.take(i + 1).map_values(
                |y: L::ComputedValue| L::from_computed_spec(&y),
            ));
        }
        i += 1;
    }
    proof {
        assert(computed.leaves@.take(n as int) =~= computed.leaves@);
    }
    ShapeValue { variant_index: computed.variant_index, leaves: out }
}

/// Law (shape preservation round trip, value-level instance): when each
/// leaf's forward/inverse pair is an identity round trip, applying the
/// forward transform and then the inverse to a shape value yields a value
/// of the same variant with every leaf restored.
pub proof fn lemma_animated_round_trip<L: ToAnimatedValue>(
    v: ShapeValue<L>,
    forward: ShapeValue<L::AnimatedValue>,
    back: ShapeValue<L>,
)
    requires
        forall|x: L| #[trigger] L::from_animated_spec(&x.to_animated_spec()) == x,
        forward.variant_index == v.variant_index,
        forward.leaves@ == v.leaves@.map_values(|x: L| x.to_animated_spec()),
        back.variant_index == forward.variant_index,
        back.leaves@ == forward.leaves@.map_values(|y: L::AnimatedValue| L::from_animated_spec(&y)),
    ensures
        back.variant_index == v.variant_index,
        back.leaves@ == v.leaves@,
{
    assert(back.leaves@ =~= v.leaves@);
}

/// Law (shape preservation round trip, context-taking instance): when each
/// leaf's forward/inverse pair is an identity round trip under the one
/// shared context, applying the forward transform and then the inverse to
/// a shape value yields a value of the same variant with every leaf
/// restored.
pub proof fn lemma_computed_round_trip<C, L: ToComputedValue<C>>(
    v: ShapeValue<L>,
    forward: ShapeValue<L::ComputedValue>,
    back: ShapeValue<L>,
    context: C,
)
    requires
        forall|x: L| #[trigger] L::from_computed_spec(&x.to_computed_spec(&context)) == x,
        forward.variant_index == v.variant_index,
        forward.leaves@ == v.leaves@.map_values(|x: L| x.to_computed_spec(&context)),
        back.variant_index == forward.variant_index,
        back.leaves@ == forward.leaves@.map_values(|y: L::ComputedValue| L::from_computed_spec(&y)),
    ensures
        back.variant_index == v.variant_index,
        back.leaves@ == v.leaves@,
{
    assert(back.leaves@ =~= v.leaves@);
}

} // verus!
