//! Error taxonomy for the YAML safety layer.
//!
//! Every fallible operation of the layer reports one of the closed set of
//! error kinds in [`Error`]. Parse failures that carry location information
//! use [`ParseError`], whose line and column are 1-based and optional.

use vstd::prelude::*;

verus! {

/// Detailed parse error with optional location information.
///
/// The line and column are 1-based; `None` means the engine reported the
/// position as unavailable.
#[derive(Debug, Clone, PartialEq, Eq)]
pub struct ParseError {
    /// The error message reported by the engine.
    pub message: String,
    /// Line number (1-based), if available.
    pub line: Option<u32>,
    /// Column number (1-based), if available.
    pub column: Option<u32>,
}

impl ParseError {
    /// Creates a new parse error with just a message.
    pub fn new(message: &str) -> (r: ParseError)
        ensures
            r.message@ == message@,
            r.line is None,
            r.column is None,
    {
        ParseError { message: message.to_owned(), line: None, column: None }
    }

    /// Creates a new parse error with location information.
    pub fn with_location(message: &str, line: u32, column: u32) -> (r: ParseError)
        ensures
            r.message@ == message@,
            r.line == Some(line),
            r.column == Some(column),
    {
        ParseError { message: message.to_owned(), line: Some(line), column: Some(column) }
    }

    /// Returns the error message.
    pub fn message(&self) -> (r: &str)
        ensures
            r@ == self.message@,
    {
        self.message.as_str()
    }

    /// Returns the line number (1-based), if available.
    pub fn line(&self) -> (r: Option<u32>)
        ensures
            r == self.line,
    {
        self.line
    }

    /// Returns the column number (1-based), if available.
    pub fn column(&self) -> (r: Option<u32>)
        ensures
            r == self.column,
    {
        self.column
    }

    /// Returns the location as `(line, column)` when both are available.
    pub fn location(&self) -> (r: Option<(u32, u32)>)
        ensures
            match (self.line, self.column) {
                (Some(l), Some(c)) => r == Some((l, c)),
                _ => r is None,
            },
    {
        match (self.line, self.column) {
            (Some(l), Some(c)) => Some((l, c)),
            _ => None,
        }
    }
}

/// Error type for the layer's operations.
#[derive(Debug, Clone, PartialEq, Eq)]
pub enum Error {
    /// An engine call returned an error or an unexpected result.
    Ffi(&'static str),
    /// YAML parsing failed (plain message, no location information).
    Parse(&'static str),
    /// YAML parsing failed, with detailed location information.
    ParseError(ParseError),
    /// An I/O operation failed.
    Io(&'static str),
    /// A memory allocation failed.
    Alloc(&'static str),
    /// Scalar bytes were not valid UTF-8; holds the number of valid bytes
    /// before the offending byte.
    Utf8(usize),
    /// A mutation was attempted while iterators were active.
    MutationWhileIterating,
    /// An operation required a different node kind.
    TypeMismatch {
        /// The node kind the operation required.
        expected: &'static str,
        /// The node kind that was actually found.
        got: &'static str,
    },
    /// Nodes from different documents were used together.
    DocumentMismatch,
    /// A scalar length reported by the engine exceeded the sanity limit.
    ScalarTooLarge(usize),
}

impl Error {
    /// Returns the parse error details if this is a located parse error.
    pub fn as_parse_error(&self) -> (r: Option<&ParseError>)
        ensures
            match self {
                Error::ParseError(e) => r == Some(e),
                _ => r is None,
            },
    {
        match self {
            Error::ParseError(e) => Some(e),
            _ => None,
        }
    }
}

impl From<ParseError> for Error {
    /// Wraps a located parse error in the error taxonomy.
    fn from(e: ParseError) -> (r: Error) {
        Error::ParseError(e)
    }
}

impl vstd::std_specs::convert::FromSpecImpl<ParseError> for Error {
    open spec fn obeys_from_spec() -> bool {
        true
    }

    open spec fn from_spec(e: ParseError) -> Error {
        Error::ParseError(e)
    }
}

} // verus!
