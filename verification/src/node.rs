//! Node kinds and styles.
//!
//! A tree node is a scalar, a sequence or a mapping; a scalar additionally
//! carries a presentation style. The style decides whether the scalar text
//! is eligible for type inference: only a plain (unquoted, non-block) scalar
//! is ever interpreted as null, boolean or number.

use vstd::prelude::*;

verus! {

/// The kind of a YAML node.
#[derive(PartialEq, Eq, Structural, Debug, Clone, Copy)]
pub enum NodeType {
    /// A scalar value (string, number, boolean, null).
    Scalar,
    /// A sequence (list) of nodes.
    Sequence,
    /// A mapping (dictionary) of key-value pairs.
    Mapping,
}

impl NodeType {
    /// A short name for this kind, as used in type-mismatch errors.
    pub fn name(&self) -> (r: &'static str)
        ensures
            match self {
                NodeType::Scalar => r@ == "scalar"@,
                NodeType::Sequence => r@ == "sequence"@,
                NodeType::Mapping => r@ == "mapping"@,
            },
    {
        match self {
            NodeType::Scalar => "scalar",
            NodeType::Sequence => "sequence",
            NodeType::Mapping => "mapping",
        }
    }
}

/// The presentation style of a node.
///
/// Scalars use `Plain`, `SingleQuoted`, `DoubleQuoted`, `Literal` or
/// `Folded`; collections use `Flow` or `Block`; `Any` leaves the choice to
/// the emitter; `Alias` marks an alias node.
#[derive(PartialEq, Eq, Structural, Debug, Clone, Copy)]
pub enum NodeStyle {
    /// No particular style requested.
    Any,
    /// Flow style (`[a, b]`, `{k: v}`).
    Flow,
    /// Block style (indentation-based).
    Block,
    /// Plain scalar, no quotes: the only style eligible for type inference.
    Plain,
    /// Single-quoted scalar.
    SingleQuoted,
    /// Double-quoted scalar.
    DoubleQuoted,
    /// Literal block scalar (`|`).
    Literal,
    /// Folded block scalar (`>`).
    Folded,
    /// An alias node.
    Alias,
}

/// True for the quoted and block scalar styles, whose content is always
/// taken as an opaque string and never type-inferred.
pub open spec fn spec_is_non_plain(style: NodeStyle) -> bool {
    style == NodeStyle::SingleQuoted || style == NodeStyle::DoubleQuoted || style
        == NodeStyle::Literal || style == NodeStyle::Folded
}

impl NodeStyle {
    /// Returns `true` for a quoted scalar style (single or double quotes).
    pub fn is_quoted(&self) -> (r: bool)
        ensures
            r == (self == NodeStyle::SingleQuoted || self == NodeStyle::DoubleQuoted),
    {
        match self {
            NodeStyle::SingleQuoted | NodeStyle::DoubleQuoted => true,
            _ => false,
        }
    }

    /// Returns `true` for the styles that block type inference: quoted
    /// (single or double) and block (literal or folded) scalars.
    pub fn is_non_plain(&self) -> (r: bool)
        ensures
            r == spec_is_non_plain(*self),
    {
        match self {
            NodeStyle::SingleQuoted | NodeStyle::DoubleQuoted | NodeStyle::Literal
            | NodeStyle::Folded => true,
            _ => false,
        }
    }
}

} // verus!
