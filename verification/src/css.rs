//! The CSS-Serialize strategy: the textual serialization of a shape value.
//!
//! Every variant's annotations are validated first — a bad annotation
//! anywhere in the shape aborts generation. A variant with no fields
//! serializes to its transformed tag; one with fields serializes to its
//! fields' own serializations joined by a separator (`", "` under the
//! `comma` flag, a single space otherwise); under the `function` flag the
//! output is wrapped as `identifier(...)`.

use vstd::prelude::*;
use vstd::string::StringExecFns;
use crate::annotations::Annotations;
use crate::annotations::AnnotationError;
use crate::annotations::resolve_annotations;
use crate::annotations::resolve_spec;
use crate::identifier::css_identifier_of;
use crate::identifier::to_css_identifier;
use crate::shape::ShapeDescriptor;
use crate::shape::ShapeValue;
use crate::shape::Variant;

verus! {

/// The failure signal of a leaf's own serialization.
#[derive(Clone, Copy, Debug, PartialEq, Eq, Structural)]
pub struct WriteError;

/// A failure of the CSS-Serialize strategy.
#[derive(Clone, Copy, Debug, PartialEq, Eq, Structural)]
pub enum CssError {
    /// A generation-time annotation validation failure, on any variant of
    /// the shape.
    Annotation(AnnotationError),
    /// A field's own serialization failed.
    Write(WriteError),
}

/// The textual-serialization capability of a leaf type. A leaf's
/// serialization may fail.
pub trait ToCss {
    /// What the leaf's serialization yields, `None` standing for failure.
    spec fn to_css_spec(&self) -> Option<Seq<char>>;

    fn to_css(&self) -> (r: Result<String, WriteError>)
        ensures
            match self.to_css_spec() {
                Some(t) => r matches Ok(s) && s@ == t,
                None => r == Err::<String, WriteError>(WriteError),
            },
    ;
}

/// The serializations of the first `i` leaves joined by `sep`, `None` as
/// soon as any of them fails.
pub open spec fn css_join<L: ToCss>(leaves: Seq<L>, sep: Seq<char>, i: int) -> Option<Seq<char>>
    decreases i,
{
    if i <= 0 {
        Some(Seq::empty())
    } else {
        match css_join(leaves, sep, i - 1) {
            None => None,
            Some(p) => match leaves[i - 1].to_css_spec() {
                None => None,
                Some(t) => Some(
                    if i == 1 {
                        t
                    } else {
                        p + sep + t
                    },
                ),
            },
        }
    }
}

/// The first annotation validation error among the first `i` variants, in
/// variant order, or success.
pub open spec fn resolve_all(variants: Seq<Variant>, i: int) -> Result<(), AnnotationError>
    decreases i,
{
    if i <= 0 {
        Ok(())
    } else {
        match resolve_all(variants, i - 1) {
            Err(e) => Err(e),
            Ok(_) => match resolve_spec(variants[i - 1].annotations@) {
                Err(e) => Err(e),
                Ok(_) => Ok(()),
            },
        }
    }
}

/// The validated flag set of a variant whose annotations resolve.
pub open spec fn flags_of(variant: Variant) -> Annotations {
    match resolve_spec(variant.annotations@) {
        Ok(f) => f,
        Err(_) => Annotations { function: false, comma: false },
    }
}

/// The serialization of one variant's value under its validated flags: the
/// transformed tag for a variant with no fields, the joined field
/// serializations otherwise, wrapped as `identifier(...)` under the
/// `function` flag.
pub open spec fn css_variant_output<L: ToCss>(
    tag: Seq<char>,
    flags: Annotations,
    leaves: Seq<L>,
) -> Option<Seq<char>> {
    let ident = css_identifier_of(tag);
    let sep: Seq<char> = if flags.comma {
        ", "@
    } else {
        " "@
    };
    let inner = if leaves.len() == 0 {
        Some(ident)
    } else {
        css_join(leaves, sep, leaves.len() as int)
    };
    match inner {
        None => None,
        Some(t) => Some(
            if flags.function {
                ident + "("@ + t + ")"@
            } else {
                t
            },
        ),
    }
}

/// What `to_css` yields: the first annotation validation error among all
/// the shape's variants if there is one, then the value's variant
/// serialization, a field serialization failure propagated as such.
pub open spec fn css_result<L: ToCss>(shape: ShapeDescriptor, v: ShapeValue<L>) -> Result<
    Seq<char>,
    CssError,
> {
    match resolve_all(shape.variants@, shape.variants@.len() as int) {
        Err(e) => Err(CssError::Annotation(e)),
        Ok(_) => {
            let variant = shape.variants@[v.variant_index as int];
            match css_variant_output(variant.tag@, flags_of(variant), v.leaves@) {
                None => Err(CssError::Write(WriteError)),
                Some(t) => Ok(t),
            }
        },
    }
}

proof fn lemma_resolve_all_err_persists(variants: Seq<Variant>, i: int, j: int)
    requires
        0 <= i <= j,
        resolve_all(variants, i) is Err,
    ensures
        resolve_all(variants, j) == resolve_all(variants, i),
    decreases j - i,
{
    if i < j {
        lemma_resolve_all_err_persists(variants, i, j - 1);
    }
}

/// When the whole scan succeeds, each variant's annotations resolve.
proof fn lemma_resolve_all_ok_each(variants: Seq<Variant>, i: int, j: int)
    requires
        0 <= j < i,
        resolve_all(variants, i) is Ok,
    ensures
        resolve_spec(variants[j].annotations@) is Ok,
    decreases i,
{
    if j < i - 1 {
        lemma_resolve_all_ok_each(variants, i - 1, j);
    }
}

proof fn lemma_css_join_none_persists<L: ToCss>(leaves: Seq<L>, sep: Seq<char>, i: int, j: int)
    requires
        0 <= i <= j,
        css_join(leaves, sep, i) is None,
    ensures
        css_join(leaves, sep, j) is None,
    decreases j - i,
{
    if i < j {
        lemma_css_join_none_persists(leaves, sep, i, j - 1);
    }
}

/// Evaluate the CSS-Serialize strategy for one value of the shape.
pub fn to_css<L: ToCss>(shape: &ShapeDescriptor, v: &ShapeValue<L>) -> (r: Result<String, CssError>)
    requires
        shape.wf(),
        v.wf(shape),
    ensures
        match css_result(*shape, *v) {
            Ok(t) => r matches Ok(s) && s@ == t,
            Err(e) => r == Err::<String, CssError>(e),
        },
{
    let nv = shape.variants.len();
    let mut k: usize = 0;
    while k < nv
        invariant
            k <= nv,
            nv == shape.variants@.len(),
            resolve_all(shape.variants@, k as int) == Ok::<(), AnnotationError>(()),
        decreases nv - k,
    {
        let variant_k = &shape.variants[k];
        match resolve_annotations(&variant_k.annotations) {
            Ok(_) => {},
            Err(e) => {
                proof {
                    lemma_resolve_all_err_persists(shape.variants@, k + 1, nv as int);
                }
                return Err(CssError::Annotation(e));
            },
        }
        k += 1;
    }
    let variant = &shape.variants[v.variant_index];
    proof {
        lemma_resolve_all_ok_each(shape.variants@, nv as int, v.variant_index as int);
    }
    let flags = match resolve_annotations(&variant.annotations) {
        Ok(f) => f,
        Err(_) => {
            proof {
                assert(false);
            }
            Annotations::none()
        },
    };
    let ident = to_css_identifier(variant.tag.as_str());
    let ghost ident_view = ident@;
    let ghost ssep: Seq<char> = if flags.comma {
        ", "@
    } else {
        " "@
    };
    let sep: &str = if flags.comma {
        ", "
    } else {
        " "
    };
    let inner: String;
    if v.leaves.len() == 0 {
        inner = ident.clone();
    } else {
        let mut joined = String::new();
        let n = v.leaves.len();
        let mut i: usize = 0;
        while i < n
            invariant
                i <= n,
                n == v.leaves@.len(),
                n >= 1,
                sep@ == ssep,
                css_join(v.leaves@, ssep, i as int) == Some(joined@),
                resolve_all(shape.variants@, shape.variants@.len() as int) == Ok::<
                    (),
                    AnnotationError,
                >(()),
                (v.variant_index as int) < shape.variants@.len(),
                flags == flags_of(shape.variants@[v.variant_index as int]),
                ssep == (if flags.comma {
                    ", "@
                } else {
                    " "@
                }),
            decreases n - i,
        {
            match v.leaves[i].to_css() {
                Ok(s) => {
                    let ghost before = joined@;
                    if i > 0 {
                        joined.append(sep);
                    }
                    joined.append(s.as_str());
                    proof {
                        if i == 0 {
                            assert(joined@ =~= s@);
                        } else {
                            assert(joined@ =~= before + ssep + s@);
                        }
                    }
                },
                Err(_) => {
                    proof {
                        lemma_css_join_none_persists(v.leaves@, ssep, i + 1, n as int);
                    }
                    return Err(CssError::Write(WriteError));
                },
            }
            i += 1;
        }
        inner = joined;
    }
    if flags.function {
        let mut out = ident;
        out.append("(");
        out.append(inner.as_str());
        out.append(")");
        proof {
            assert(out@ =~= ident_view + "("@ + inner@ + ")"@);
        }
        Ok(out)
    } else {
        Ok(inner)
    }
}

} // verus!
