//! Structural shape-traversal engine for style-value types.
//!
//! Given a description of a data type's shape (its variants, each variant's
//! fields, and optional per-variant annotations), this library evaluates five
//! structural operations over values of that shape: squared-distance
//! computation, a boolean flag check, two transform-and-reconstruct
//! operations, and CSS textual serialization.

pub mod annotations;
pub mod css;
pub mod distance;
pub mod flag;
pub mod identifier;
pub mod leaves;
pub mod shape;
pub mod transform;
