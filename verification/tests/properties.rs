use style_derive::annotations::AnnotationBlock;
use style_derive::annotations::AnnotationError;
use style_derive::annotations::Annotations;
use style_derive::annotations::resolve_annotations;
use style_derive::css::CssError;
use style_derive::css::WriteError;
use style_derive::css::to_css;
use style_derive::distance::DistanceError;
use style_derive::distance::squared_distance;
use style_derive::flag::has_viewport_percentage;
use style_derive::identifier::split_camel_segment;
use style_derive::identifier::to_css_identifier;
use style_derive::leaves::BoolLeaf;
use style_derive::leaves::GuardedNum;
use style_derive::leaves::NumLeaf;
use style_derive::leaves::TextLeaf;
use style_derive::shape::Field;
use style_derive::shape::ShapeDescriptor;
use style_derive::shape::ShapeValue;
use style_derive::shape::Variant;
use style_derive::shape::VariantKind;

fn field(name: &str) -> Field {
    Field {
        binding: name.to_string(),
        type_ref: "T".to_string(),
    }
}

fn variant(tag: &str, fields: Vec<Field>, blocks: Vec<Vec<&str>>) -> Variant {
    let kind = if fields.is_empty() {
        VariantKind::Unit
    } else {
        VariantKind::Named
    };
    Variant {
        tag: tag.to_string(),
        kind,
        fields,
        annotations: blocks
            .into_iter()
            .map(|tokens| AnnotationBlock {
                tokens: tokens.into_iter().map(|t| t.to_string()).collect(),
            })
            .collect(),
    }
}

fn shape(name: &str, variants: Vec<Variant>) -> ShapeDescriptor {
    ShapeDescriptor {
        name: name.to_string(),
        type_parameters: vec!["T".to_string()],
        variants,
    }
}

fn text(s: &str) -> TextLeaf {
    TextLeaf {
        text: s.to_string(),
        ok: true,
    }
}

fn two_variant_shape() -> ShapeDescriptor {
    shape(
        "Either",
        vec![
            variant("First", vec![field("a")], vec![]),
            variant("Second", vec![field("b")], vec![]),
        ],
    )
}

#[test]
fn identifier_literal_cases() {
    assert_eq!(to_css_identifier("FooBar"), "foo-bar");
    assert_eq!(to_css_identifier("MozThing"), "-moz-thing");
    assert_eq!(to_css_identifier("WebkitUnitVariant"), "-webkit-unit-variant");
    assert_eq!(to_css_identifier("UnitVariant"), "unit-variant");
}

#[test]
fn identifier_strips_trailing_underscores() {
    assert_eq!(to_css_identifier("Type__"), "type");
    assert_eq!(to_css_identifier(""), "");
}

#[test]
fn identifier_vendor_prefix_is_case_insensitive() {
    assert_eq!(to_css_identifier("mozThing"), "-moz-thing");
}

#[test]
fn split_camel_segment_walks_segments() {
    let mut rest = "FooBar";
    assert_eq!(split_camel_segment(&mut rest), Some("Foo"));
    assert_eq!(rest, "Bar");
    assert_eq!(split_camel_segment(&mut rest), Some("Bar"));
    assert_eq!(rest, "");
    assert_eq!(split_camel_segment(&mut rest), None);
}

#[test]
fn distance_to_self_is_zero() {
    let descriptor = shape(
        "A",
        vec![variant("A", vec![field("a"), field("b"), field("c")], vec![])],
    );
    let value = ShapeValue {
        variant_index: 0,
        leaves: vec![
            NumLeaf { value: -4 },
            NumLeaf { value: 0 },
            NumLeaf { value: 17 },
        ],
    };
    assert_eq!(squared_distance(&descriptor, &value, &value), Ok(0u128));
}

#[test]
fn distance_is_symmetric() {
    let descriptor = shape(
        "A",
        vec![variant("A", vec![field("a"), field("b")], vec![])],
    );
    let this = ShapeValue {
        variant_index: 0,
        leaves: vec![NumLeaf { value: -3 }, NumLeaf { value: 11 }],
    };
    let other = ShapeValue {
        variant_index: 0,
        leaves: vec![NumLeaf { value: 2 }, NumLeaf { value: -5 }],
    };
    assert_eq!(
        squared_distance(&descriptor, &this, &other),
        squared_distance(&descriptor, &other, &this)
    );
}

#[test]
fn distance_across_variants_fails() {
    let descriptor = two_variant_shape();
    let first = ShapeValue {
        variant_index: 0,
        leaves: vec![NumLeaf { value: 1 }],
    };
    let second = ShapeValue {
        variant_index: 1,
        leaves: vec![NumLeaf { value: 1 }],
    };
    assert_eq!(
        squared_distance(&descriptor, &first, &second),
        Err(DistanceError)
    );
    assert_eq!(
        squared_distance(&descriptor, &second, &first),
        Err(DistanceError)
    );
}

#[test]
fn distance_propagates_field_failure() {
    let descriptor = shape(
        "A",
        vec![variant("A", vec![field("a"), field("b")], vec![])],
    );
    let this = ShapeValue {
        variant_index: 0,
        leaves: vec![
            GuardedNum {
                value: 1,
                comparable: true,
            },
            GuardedNum {
                value: 2,
                comparable: false,
            },
        ],
    };
    let other = ShapeValue {
        variant_index: 0,
        leaves: vec![
            GuardedNum {
                value: 3,
                comparable: true,
            },
            GuardedNum {
                value: 4,
                comparable: true,
            },
        ],
    };
    assert_eq!(
        squared_distance(&descriptor, &this, &other),
        Err(DistanceError)
    );
    let comparable = ShapeValue {
        variant_index: 0,
        leaves: vec![
            GuardedNum {
                value: 1,
                comparable: true,
            },
            GuardedNum {
                value: 6,
                comparable: true,
            },
        ],
    };
    assert_eq!(
        squared_distance(&descriptor, &comparable, &other),
        Ok(8u128)
    );
}

#[test]
fn flag_of_unit_variant_is_false() {
    let descriptor = shape("A", vec![variant("A", vec![], vec![])]);
    let value: ShapeValue<BoolLeaf> = ShapeValue {
        variant_index: 0,
        leaves: vec![],
    };
    assert!(!has_viewport_percentage(&descriptor, &value));
}

#[test]
fn flag_is_or_of_field_flags() {
    let descriptor = shape(
        "A",
        vec![variant("A", vec![field("a"), field("b"), field("c")], vec![])],
    );
    let mixed = ShapeValue {
        variant_index: 0,
        leaves: vec![
            BoolLeaf { flag: true },
            BoolLeaf { flag: false },
            BoolLeaf { flag: false },
        ],
    };
    let none = ShapeValue {
        variant_index: 0,
        leaves: vec![
            BoolLeaf { flag: false },
            BoolLeaf { flag: false },
            BoolLeaf { flag: false },
        ],
    };
    assert!(has_viewport_percentage(&descriptor, &mixed));
    assert!(!has_viewport_percentage(&descriptor, &none));
}

#[test]
fn resolve_accepts_both_flags_once() {
    assert_eq!(
        resolve_annotations(&vec![]),
        Ok(Annotations {
            function: false,
            comma: false
        })
    );
    assert_eq!(
        resolve_annotations(&vec![AnnotationBlock {
            tokens: vec!["function".to_string(), "comma".to_string()]
        }]),
        Ok(Annotations {
            function: true,
            comma: true
        })
    );
}

#[test]
fn repeated_function_flag_is_rejected() {
    assert_eq!(
        resolve_annotations(&vec![AnnotationBlock {
            tokens: vec!["function".to_string(), "function".to_string()]
        }]),
        Err(AnnotationError::RepeatedFunction)
    );
}

#[test]
fn repeated_comma_flag_is_rejected() {
    assert_eq!(
        resolve_annotations(&vec![AnnotationBlock {
            tokens: vec!["comma".to_string(), "comma".to_string()]
        }]),
        Err(AnnotationError::RepeatedComma)
    );
}

#[test]
fn unknown_annotation_token_is_rejected() {
    assert_eq!(
        resolve_annotations(&vec![AnnotationBlock {
            tokens: vec!["iterable".to_string()]
        }]),
        Err(AnnotationError::UnknownToken)
    );
}

#[test]
fn second_annotation_block_is_rejected() {
    assert_eq!(
        resolve_annotations(&vec![
            AnnotationBlock {
                tokens: vec!["function".to_string()]
            },
            AnnotationBlock {
                tokens: vec!["comma".to_string()]
            },
        ]),
        Err(AnnotationError::MultipleBlocks)
    );
}

/// A bad annotation anywhere in the shape aborts serialization, whichever
/// variant the value belongs to.
#[test]
fn css_aborts_on_bad_annotation_elsewhere() {
    let descriptor = shape(
        "Either",
        vec![
            variant("First", vec![field("a")], vec![]),
            variant("Second", vec![field("b")], vec![vec!["function", "function"]]),
        ],
    );
    let value = ShapeValue {
        variant_index: 0,
        leaves: vec![text("1")],
    };
    assert_eq!(
        to_css(&descriptor, &value),
        Err(CssError::Annotation(AnnotationError::RepeatedFunction))
    );
}

#[test]
fn css_propagates_field_write_failure() {
    let descriptor = shape(
        "A",
        vec![variant("A", vec![field("a"), field("b")], vec![])],
    );
    let value = ShapeValue {
        variant_index: 0,
        leaves: vec![
            text("1"),
            TextLeaf {
                text: "2".to_string(),
                ok: false,
            },
        ],
    };
    assert_eq!(
        to_css(&descriptor, &value),
        Err(CssError::Write(WriteError))
    );
}

/// A unit variant under the `function` flag wraps its identifier around
/// itself, mirroring the shared wrap step.
#[test]
fn css_function_flag_on_unit_variant() {
    let descriptor = shape(
        "A",
        vec![variant("SomeThing", vec![], vec![vec!["function"]])],
    );
    let value: ShapeValue<TextLeaf> = ShapeValue {
        variant_index: 0,
        leaves: vec![],
    };
    assert_eq!(
        to_css(&descriptor, &value),
        Ok("some-thing(some-thing)".to_string())
    );
}

#[test]
fn css_comma_flag_without_function() {
    let descriptor = shape(
        "A",
        vec![variant("SomeThing", vec![field("a"), field("b")], vec![vec!["comma"]])],
    );
    let value = ShapeValue {
        variant_index: 0,
        leaves: vec![text("1"), text("2")],
    };
    assert_eq!(to_css(&descriptor, &value), Ok("1, 2".to_string()));
}
