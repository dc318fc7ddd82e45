//! Normalization of engine diagnostics.
//!
//! The engine reports error positions 0-based, with `-1` meaning "not
//! available". Users see 1-based positions, with absence expressed as
//! `None`. Every parse failure prefers the located error captured from the
//! engine's diagnostic channel and falls back to a plain parse error only
//! when nothing was captured (for instance when creating the diagnostic
//! context itself failed).

use vstd::prelude::*;

use crate::error::{Error, ParseError};

verus! {

/// The position rule: `-1` (or any negative report) becomes absent; a
/// 0-based position becomes 1-based.
pub open spec fn spec_normalize_position(raw: int) -> Option<u32> {
    if raw >= 0 {
        Some((raw + 1) as u32)
    } else {
        None
    }
}

/// Normalizes one engine-reported position.
pub fn normalize_position(raw: i32) -> (r: Option<u32>)
    ensures
        r == spec_normalize_position(raw as int),
{
    if raw >= 0 {
        Some((raw as u32) + 1)
    } else {
        None
    }
}

/// Builds a located parse error from an engine diagnostic record: the
/// message as reported, the line and column normalized.
pub fn located_error(message: &str, line: i32, column: i32) -> (r: ParseError)
    ensures
        r.message@ == message@,
        r.line == spec_normalize_position(line as int),
        r.column == spec_normalize_position(column as int),
{
    ParseError {
        message: message.to_owned(),
        line: normalize_position(line),
        column: normalize_position(column),
    }
}

/// Turns the outcome of diagnostic capture into the error to report: the
/// first captured error when there is one, else the plain fallback.
pub fn error_from_capture(first: Option<ParseError>, fallback: &'static str) -> (r: Error)
    ensures
        match first {
            Some(e) => r == Error::ParseError(e),
            None => r == Error::Parse(fallback),
        },
{
    match first {
        Some(e) => Error::ParseError(e),
        None => Error::Parse(fallback),
    }
}

} // verus!
