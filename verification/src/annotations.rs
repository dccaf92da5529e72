//! Resolution of per-variant annotations into a validated flag set.
//!
//! A variant may carry annotation blocks, each holding a list of word tokens.
//! Exactly two tokens are recognised: `function` and `comma`. Anything else,
//! a repeated flag, or more than one block on the same variant is a
//! generation-time validation error.

use vstd::prelude::*;

verus! {

/// The validated flag set of one variant.
#[derive(Clone, Copy, Debug, PartialEq, Eq, Structural)]
pub struct Annotations {
    /// Wrap the serialized fields as `identifier(...)`.
    pub function: bool,
    /// Join serialized fields with `", "` instead of a single space.
    pub comma: bool,
}

impl Annotations {
    /// The flag set of a variant that carries no annotations at all.
    pub fn none() -> (r: Annotations)
        ensures
            r == (Annotations { function: false, comma: false }),
    {
        Annotations { function: false, comma: false }
    }
}

/// A generation-time validation failure in a variant's annotations.
#[derive(Clone, Copy, Debug, PartialEq, Eq, Structural)]
pub enum AnnotationError {
    /// The `function` flag was declared twice in one block.
    RepeatedFunction,
    /// The `comma` flag was declared twice in one block.
    RepeatedComma,
    /// A token other than `function` or `comma` was declared.
    UnknownToken,
    /// More than one annotation block was attached to one variant.
    MultipleBlocks,
}

/// One raw annotation block: an ordered list of word tokens, as handed over
/// by the external source-level parser.
#[derive(Clone, Debug, PartialEq, Eq)]
pub struct AnnotationBlock {
    pub tokens: Vec<String>,
}

/// The flag set after reading the first `i` tokens of a block, or the first
/// error among them.
pub open spec fn tokens_fold(tokens: Seq<String>, i: int) -> Result<Annotations, AnnotationError>
    decreases i,
{
    if i <= 0 {
        Ok(Annotations { function: false, comma: false })
    } else {
        match tokens_fold(tokens, i - 1) {
            Err(e) => Err(e),
            Ok(f) => {
                if tokens[i - 1]@ == "function"@ {
                    if f.function {
                        Err(AnnotationError::RepeatedFunction)
                    } else {
                        Ok(Annotations { function: true, comma: f.comma })
                    }
                } else if tokens[i - 1]@ == "comma"@ {
                    if f.comma {
                        Err(AnnotationError::RepeatedComma)
                    } else {
                        Ok(Annotations { function: f.function, comma: true })
                    }
                } else {
                    Err(AnnotationError::UnknownToken)
                }
            },
        }
    }
}

/// What resolving a variant's annotation blocks yields: the flag set read
/// from the sole block (or the empty flag set if there is none), or the
/// first validation error. The first block is read before the presence of a
/// second one is rejected.
pub open spec fn resolve_spec(blocks: Seq<AnnotationBlock>) -> Result<
    Annotations,
    AnnotationError,
> {
    if blocks.len() == 0 {
        Ok(Annotations { function: false, comma: false })
    } else {
        match tokens_fold(blocks[0].tokens@, blocks[0].tokens@.len() as int) {
            Err(e) => Err(e),
            Ok(f) => if blocks.len() > 1 {
                Err(AnnotationError::MultipleBlocks)
            } else {
                Ok(f)
            },
        }
    }
}

/// An error among the first `i` tokens stays an error for every longer
/// prefix.
proof fn lemma_tokens_fold_err_persists(tokens: Seq<String>, i: int, j: int)
    requires
        0 <= i <= j,
        tokens_fold(tokens, i) is Err,
    ensures
        tokens_fold(tokens, j) == tokens_fold(tokens, i),
    decreases j - i,
{
    if i < j {
        lemma_tokens_fold_err_persists(tokens, i, j - 1);
    }
}

/// Resolve a variant's annotation blocks into its validated flag set.
pub fn resolve_annotations(blocks: &Vec<AnnotationBlock>) -> (r: Result<
    Annotations,
    AnnotationError,
>)
    ensures
        r == resolve_spec(blocks@),
{
    if blocks.len() == 0 {
        return Ok(Annotations::none());
    }
    let first_block = &blocks[0];
    let tokens = &first_block.tokens;
    let lit_function = String::from_str("function");
    let lit_comma = String::from_str("comma");
    let mut flags = Annotations::none();
    let mut i: usize = 0;
    while i < tokens.len()
        invariant
            blocks@.len() >= 1,
            tokens@ == blocks@[0].tokens@,
            i <= tokens@.len(),
            tokens_fold(tokens@, i as int) == Ok::<Annotations, AnnotationError>(flags),
            lit_function@ == "function"@,
            lit_comma@ == "comma"@,
        decreases tokens@.len() - i,
    {
        if tokens[i] == lit_function {
            if flags.function {
                proof {
                    lemma_tokens_fold_err_persists(tokens@, i + 1, tokens@.len() as int);
                }
                return Err(AnnotationError::RepeatedFunction);
            }
            flags = Annotations { function: true, comma: flags.comma };
        } else if tokens[i] == lit_comma {
            if flags.comma {
                proof {
                    lemma_tokens_fold_err_persists(tokens@, i + 1, tokens@.len() as int);
                }
                return Err(AnnotationError::RepeatedComma);
            }
            flags = Annotations { function: flags.function, comma: true };
        } else {
            proof {
                lemma_tokens_fold_err_persists(tokens@, i + 1, tokens@.len() as int);
            }
            return Err(AnnotationError::UnknownToken);
        }
        i += 1;
    }
    if blocks.len() > 1 {
        return Err(AnnotationError::MultipleBlocks);
    }
    Ok(flags)
}

} // verus!
