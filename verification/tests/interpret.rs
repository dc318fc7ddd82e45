//! Tests for the typed interpretation of scalar nodes.

use fyaml::interpret::{value_as_bool, value_as_i64, value_as_u64, value_is_null};
use fyaml::{NodeStyle, NodeType};

#[test]
fn plain_scalar_is_interpreted() {
    let k = NodeType::Scalar;
    let s = NodeStyle::Plain;
    assert!(value_is_null(k, s, Some("null")));
    assert!(value_is_null(k, s, Some("~")));
    assert!(value_is_null(k, s, Some("")));
    assert_eq!(value_as_bool(k, s, Some("yes")), Some(true));
    assert_eq!(value_as_bool(k, s, Some("off")), Some(false));
    assert_eq!(value_as_i64(k, s, Some("-0xFF")), Some(-255));
    assert_eq!(value_as_u64(k, s, Some("42")), Some(42));
}

#[test]
fn plain_scalar_agrees_with_standalone_inference() {
    // The typed accessors and the standalone rules see the same text.
    for t in ["null", "~", "", "true", "no", "42", "-10", "0xFF", "maybe", "nil"] {
        let k = NodeType::Scalar;
        let s = NodeStyle::Plain;
        assert_eq!(value_is_null(k, s, Some(t)), fyaml::is_null(t), "{t:?}");
        assert_eq!(value_as_bool(k, s, Some(t)), fyaml::parse_bool(t), "{t:?}");
        assert_eq!(value_as_i64(k, s, Some(t)), fyaml::parse_i64(t), "{t:?}");
        assert_eq!(value_as_u64(k, s, Some(t)), fyaml::parse_u64(t), "{t:?}");
    }
}

#[test]
fn quoted_and_block_scalars_are_never_interpreted() {
    let k = NodeType::Scalar;
    for s in [
        NodeStyle::SingleQuoted,
        NodeStyle::DoubleQuoted,
        NodeStyle::Literal,
        NodeStyle::Folded,
    ] {
        assert!(!value_is_null(k, s, Some("null")));
        assert_eq!(value_as_bool(k, s, Some("true")), None);
        assert_eq!(value_as_i64(k, s, Some("42")), None);
        assert_eq!(value_as_u64(k, s, Some("42")), None);
    }
}

#[test]
fn non_scalars_are_never_interpreted() {
    for k in [NodeType::Sequence, NodeType::Mapping] {
        let s = NodeStyle::Block;
        assert!(!value_is_null(k, s, None));
        assert_eq!(value_as_bool(k, s, None), None);
        assert_eq!(value_as_i64(k, s, None), None);
        assert_eq!(value_as_u64(k, s, None), None);
    }
}

#[test]
fn missing_text_is_never_interpreted() {
    // A scalar whose bytes are not valid text has no inferred type.
    let k = NodeType::Scalar;
    let s = NodeStyle::Plain;
    assert!(!value_is_null(k, s, None));
    assert_eq!(value_as_bool(k, s, None), None);
}

#[test]
fn style_predicates() {
    assert!(NodeStyle::SingleQuoted.is_quoted());
    assert!(NodeStyle::DoubleQuoted.is_quoted());
    assert!(!NodeStyle::Plain.is_quoted());
    assert!(!NodeStyle::Literal.is_quoted());
    assert!(NodeStyle::SingleQuoted.is_non_plain());
    assert!(NodeStyle::DoubleQuoted.is_non_plain());
    assert!(NodeStyle::Literal.is_non_plain());
    assert!(NodeStyle::Folded.is_non_plain());
    assert!(!NodeStyle::Plain.is_non_plain());
    assert!(!NodeStyle::Any.is_non_plain());
    assert!(!NodeStyle::Flow.is_non_plain());
    assert!(!NodeStyle::Block.is_non_plain());
    assert!(!NodeStyle::Alias.is_non_plain());
}

#[test]
fn node_type_names() {
    assert_eq!(NodeType::Scalar.name(), "scalar");
    assert_eq!(NodeType::Sequence.name(), "sequence");
    assert_eq!(NodeType::Mapping.name(), "mapping");
}
