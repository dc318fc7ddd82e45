//! Verified core of a safety layer over a native YAML engine.
//!
//! The engine itself (parsing, emission, tree storage) is foreign code reached
//! only through raw FFI, which stays outside this crate. What stands here is
//! everything that can be stated and proved about the layer's own logic:
//!
//! - the scalar type-inference rules applied to plain scalars
//!   ([`scalar_parse`]),
//! - the typed read view over a scalar's kind, style and text ([`interpret`]),
//! - the error taxonomy and located parse errors ([`error`]),
//! - normalization of the engine's diagnostic reports ([`diag`]),
//! - path splitting and sequence index resolution ([`path`]),
//! - the editor's mutation decisions and the detached-node ownership state
//!   ([`editor`]),
//! - the document input-ownership variants and their teardown dispatch
//!   ([`document`]).
//!
//! The unverified half of the system performs each engine call and feeds the
//! results (kinds, styles, scalar text, lookup outcomes, lengths) to the
//! decision functions of this crate, then carries out the plans they return.

pub mod diag;
pub mod document;
pub mod editor;
pub mod error;
pub mod interpret;
pub mod node;
pub mod path;
pub mod scalar_parse;

pub use error::{Error, ParseError};
pub use node::{NodeStyle, NodeType};
pub use scalar_parse::{is_null, needs_quoting, parse_bool, parse_i64, parse_u64};
