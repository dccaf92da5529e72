//! The shape descriptor model: the input contract consumed by every
//! combinator strategy, and concrete values of a described shape.

use vstd::prelude::*;
use crate::annotations::AnnotationBlock;

verus! {

/// How a variant's fields are laid out in the source type.
#[derive(Clone, Copy, Debug, PartialEq, Eq, Structural)]
pub enum VariantKind {
    /// No fields at all.
    Unit,
    /// Ordered unnamed fields.
    Positional,
    /// Ordered named fields.
    Named,
}

/// One member of a variant.
#[derive(Clone, Debug, PartialEq, Eq)]
pub struct Field {
    /// A symbolic name usable to refer to the field's value; synthesized if
    /// the source field is positional.
    pub binding: String,
    /// The field's declared type, opaque to this engine.
    pub type_ref: String,
}

/// One alternative of a (possibly single-alternative) type.
#[derive(Clone, Debug, PartialEq, Eq)]
pub struct Variant {
    /// The variant's identifier, unique within the owning descriptor.
    pub tag: String,
    pub kind: VariantKind,
    /// Field order is significant: it is both combination order and
    /// reconstruction order.
    pub fields: Vec<Field>,
    /// Raw annotation blocks, not yet validated.
    pub annotations: Vec<AnnotationBlock>,
}

impl Variant {
    pub open spec fn wf(&self) -> bool {
        self.kind == VariantKind::Unit ==> self.fields@.len() == 0
    }
}

/// The normalized description of one data type's shape.
#[derive(Clone, Debug, PartialEq, Eq)]
pub struct ShapeDescriptor {
    pub name: String,
    /// Ordered generic parameter names.
    pub type_parameters: Vec<String>,
    /// At least one variant; order is dispatch order.
    pub variants: Vec<Variant>,
}

impl ShapeDescriptor {
    pub open spec fn wf(&self) -> bool {
        &&& self.variants@.len() >= 1
        &&& forall|i: int, j: int|
            0 <= i < j < self.variants@.len() ==> self.variants@[i].tag@ != self.variants@[j].tag@
        &&& forall|i: int| 0 <= i < self.variants@.len() ==> (#[trigger] self.variants@[i]).wf()
    }
}

/// A concrete value of a described shape: which variant it is an instance
/// of, and one leaf value per field of that variant, in field order.
#[derive(Clone, Debug, PartialEq, Eq)]
pub struct ShapeValue<L> {
    pub variant_index: usize,
    pub leaves: Vec<L>,
}

impl<L> ShapeValue<L> {
    /// The value is an instance of one of the descriptor's variants, with
    /// exactly one leaf per field.
    pub open spec fn wf(&self, shape: &ShapeDescriptor) -> bool {
        &&& (self.variant_index as int) < shape.variants@.len()
        &&& self.leaves@.len() == shape.variants@[self.variant_index as int].fields@.len()
    }
}

} // verus!
