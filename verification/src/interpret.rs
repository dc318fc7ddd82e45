//! Typed interpretation of a node as a value.
//!
//! A typed read of a node is a pure function of three facts: the node's
//! kind, its style, and its scalar text (absent when the node is not a
//! scalar or its bytes are not valid text). Interpretation is attempted only
//! when the node is a scalar *and* its style is plain; any quoted or block
//! scalar is always an opaque string, never type-inferred — quoting is the
//! one way to force text such as `true` to stay a string.

use vstd::prelude::*;

use crate::node::{spec_is_non_plain, NodeStyle, NodeType};
use crate::scalar_parse;

verus! {

/// The view of an optional scalar text.
pub open spec fn text_view(text: Option<&str>) -> Option<Seq<char>> {
    match text {
        Some(t) => Some(t@),
        None => None,
    }
}

/// True when type inference applies at all: a scalar node of plain style
/// whose text could be read.
pub open spec fn spec_interpretable(kind: NodeType, style: NodeStyle, text: Option<Seq<char>>) -> bool {
    kind == NodeType::Scalar && !spec_is_non_plain(style) && text is Some
}

/// The null rule of a typed read.
pub open spec fn spec_value_is_null(kind: NodeType, style: NodeStyle, text: Option<Seq<char>>) -> bool {
    spec_interpretable(kind, style, text) && scalar_parse::spec_is_null(text.unwrap())
}

/// The boolean rule of a typed read.
pub open spec fn spec_value_as_bool(
    kind: NodeType,
    style: NodeStyle,
    text: Option<Seq<char>>,
) -> Option<bool> {
    if spec_interpretable(kind, style, text) {
        scalar_parse::spec_parse_bool(text.unwrap())
    } else {
        None
    }
}

/// The signed integer rule of a typed read.
pub open spec fn spec_value_as_i64(
    kind: NodeType,
    style: NodeStyle,
    text: Option<Seq<char>>,
) -> Option<i64> {
    if spec_interpretable(kind, style, text) {
        scalar_parse::spec_parse_i64(text.unwrap())
    } else {
        None
    }
}

/// The unsigned integer rule of a typed read.
pub open spec fn spec_value_as_u64(
    kind: NodeType,
    style: NodeStyle,
    text: Option<Seq<char>>,
) -> Option<u64> {
    if spec_interpretable(kind, style, text) {
        scalar_parse::spec_parse_u64(text.unwrap())
    } else {
        None
    }
}

/// Whether a node reads as null: it must be a plain scalar whose text
/// matches the null rule. Quoted `'null'` is a string, not null.
pub fn value_is_null(kind: NodeType, style: NodeStyle, text: Option<&str>) -> (r: bool)
    ensures
        r == spec_value_is_null(kind, style, text_view(text)),
{
    if !(kind == NodeType::Scalar) {
        return false;
    }
    if style.is_non_plain() {
        return false;
    }
    match text {
        Some(t) => scalar_parse::is_null(t),
        None => false,
    }
}

/// Reads a node as a boolean, when it is a plain scalar spelling one.
pub fn value_as_bool(kind: NodeType, style: NodeStyle, text: Option<&str>) -> (r: Option<bool>)
    ensures
        r == spec_value_as_bool(kind, style, text_view(text)),
{
    if !(kind == NodeType::Scalar) {
        return None;
    }
    if style.is_non_plain() {
        return None;
    }
    match text {
        Some(t) => scalar_parse::parse_bool(t),
        None => None,
    }
}

/// Reads a node as a signed 64-bit integer, when it is a plain scalar
/// spelling one.
pub fn value_as_i64(kind: NodeType, style: NodeStyle, text: Option<&str>) -> (r: Option<i64>)
    ensures
        r == spec_value_as_i64(kind, style, text_view(text)),
{
    if !(kind == NodeType::Scalar) {
        return None;
    }
    if style.is_non_plain() {
        return None;
    }
    match text {
        Some(t) => scalar_parse::parse_i64(t),
        None => None,
    }
}

/// Reads a node as an unsigned 64-bit integer, when it is a plain scalar
/// spelling one.
pub fn value_as_u64(kind: NodeType, style: NodeStyle, text: Option<&str>) -> (r: Option<u64>)
    ensures
        r == spec_value_as_u64(kind, style, text_view(text)),
{
    if !(kind == NodeType::Scalar) {
        return None;
    }
    if style.is_non_plain() {
        return None;
    }
    match text {
        Some(t) => scalar_parse::parse_u64(t),
        None => None,
    }
}

/// For a plain scalar, every typed accessor agrees exactly with the
/// standalone scalar type-inference rule applied to the same text.
pub proof fn lemma_plain_agrees_with_inference(t: Seq<char>)
    ensures
        spec_value_is_null(NodeType::Scalar, NodeStyle::Plain, Some(t))
            == scalar_parse::spec_is_null(t),
        spec_value_as_bool(NodeType::Scalar, NodeStyle::Plain, Some(t))
            == scalar_parse::spec_parse_bool(t),
        spec_value_as_i64(NodeType::Scalar, NodeStyle::Plain, Some(t))
            == scalar_parse::spec_parse_i64(t),
        spec_value_as_u64(NodeType::Scalar, NodeStyle::Plain, Some(t))
            == scalar_parse::spec_parse_u64(t),
{
}

/// For a quoted or block-style scalar, the typed accessors never apply,
/// whatever the content: `'true'` is never a boolean and `"42"` is never a
/// number.
pub proof fn lemma_non_plain_never_interpreted(
    kind: NodeType,
    style: NodeStyle,
    text: Option<Seq<char>>,
)
    requires
        spec_is_non_plain(style),
    ensures
        !spec_value_is_null(kind, style, text),
        spec_value_as_bool(kind, style, text) is None,
        spec_value_as_i64(kind, style, text) is None,
        spec_value_as_u64(kind, style, text) is None,
{
}

} // verus!
