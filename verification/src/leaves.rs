//! Reference leaf implementations of the capability interfaces.
//!
//! Leaf semantics are supplied by field types outside the traversal
//! engine's scope; these small types give each capability a concrete,
//! verified implementation to instantiate the engine with.

use vstd::prelude::*;
use crate::css::ToCss;
use crate::css::WriteError;
use crate::distance::ComputeSquaredDistance;
use crate::distance::DistanceError;
use crate::flag::HasViewportPercentage;
use crate::transform::ToAnimatedValue;
use crate::transform::ToComputedValue;

verus! {

/// A numeric leaf: its squared distance is the square of the difference,
/// and its transforms move the number between representations.
#[derive(Clone, Copy, Debug, PartialEq, Eq, Structural)]
pub struct NumLeaf {
    pub value: i32,
}

/// The animated representation of a `NumLeaf`.
#[derive(Clone, Copy, Debug, PartialEq, Eq, Structural)]
pub struct AnimatedNum {
    pub value: i32,
}

/// The computed representation of a `NumLeaf`: the number together with
/// the context it was computed under.
#[derive(Clone, Copy, Debug, PartialEq, Eq, Structural)]
pub struct ComputedNum {
    pub value: i32,
    pub context: i32,
}

/// A numeric leaf whose distance is only defined between comparable
/// values.
#[derive(Clone, Copy, Debug, PartialEq, Eq, Structural)]
pub struct GuardedNum {
    pub value: i32,
    pub comparable: bool,
}

/// A leaf holding its own flag.
#[derive(Clone, Copy, Debug, PartialEq, Eq, Structural)]
pub struct BoolLeaf {
    pub flag: bool,
}

/// A leaf holding its own serialization, which fails when `ok` is unset.
#[derive(Clone, Debug, PartialEq, Eq)]
pub struct TextLeaf {
    pub text: String,
    pub ok: bool,
}

fn square_of_difference(a: i32, b: i32) -> (r: u64)
    ensures
        r as int == (a - b) * (a - b),
{
    let d = (a as i64) - (b as i64);
    proof {
        assert(0 <= d * d <= (u32::MAX as int) * (u32::MAX as int)) by (nonlinear_arith)
            requires
                -(u32::MAX as int) <= d as int <= (u32::MAX as int),
        ;
    }
    let wide = (d as i128) * (d as i128);
    wide as u64
}

impl ComputeSquaredDistance for NumLeaf {
    open spec fn squared_distance_spec(&self, other: &Self) -> Option<u64> {
        Some((((self.value - other.value) * (self.value - other.value)) as u64))
    }

    fn compute_squared_distance(&self, other: &Self) -> (r: Result<u64, DistanceError>) {
        Ok(square_of_difference(self.value, other.value))
    }
}

impl ComputeSquaredDistance for GuardedNum {
    open spec fn squared_distance_spec(&self, other: &Self) -> Option<u64> {
        if self.comparable && other.comparable {
            Some((((self.value - other.value) * (self.value - other.value)) as u64))
        } else {
            None
        }
    }

    fn compute_squared_distance(&self, other: &Self) -> (r: Result<u64, DistanceError>) {
        if self.comparable && other.comparable {
            Ok(square_of_difference(self.value, other.value))
        } else {
            Err(DistanceError)
        }
    }
}

impl HasViewportPercentage for BoolLeaf {
    open spec fn has_viewport_percentage_spec(&self) -> bool {
        self.flag
    }

    fn has_viewport_percentage(&self) -> (r: bool) {
        self.flag
    }
}

impl ToAnimatedValue for NumLeaf {
    type AnimatedValue = AnimatedNum;

    open spec fn to_animated_spec(&self) -> AnimatedNum {
        AnimatedNum { value: self.value }
    }

    open spec fn from_animated_spec(animated: &AnimatedNum) -> NumLeaf {
        NumLeaf { value: animated.value }
    }

    fn to_animated_value(self) -> (r: AnimatedNum) {
        AnimatedNum { value: self.value }
    }

    fn from_animated_value(animated: AnimatedNum) -> (r: NumLeaf) {
        NumLeaf { value: animated.value }
    }
}

impl ToComputedValue<i32> for NumLeaf {
    type ComputedValue = ComputedNum;

    open spec fn to_computed_spec(&self, context: &i32) -> ComputedNum {
        ComputedNum { value: self.value, context: *context }
    }

    open spec fn from_computed_spec(computed: &ComputedNum) -> NumLeaf {
        NumLeaf { value: computed.value }
    }

    fn to_computed_value(&self, context: &i32) -> (r: ComputedNum) {
        ComputedNum { value: self.value, context: *context }
    }

    fn from_computed_value(computed: &ComputedNum) -> (r: NumLeaf) {
        NumLeaf { value: computed.value }
    }
}

impl ToCss for TextLeaf {
    open spec fn to_css_spec(&self) -> Option<Seq<char>> {
        if self.ok {
            Some(self.text@)
        } else {
            None
        }
    }

    fn to_css(&self) -> (r: Result<String, WriteError>) {
        if self.ok {
            Ok(self.text.clone())
        } else {
            Err(WriteError)
        }
    }
}

} // verus!
