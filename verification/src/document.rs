//! Document input ownership and teardown dispatch.
//!
//! A document owns one parsed tree, plus a record of what keeps the backing
//! input bytes alive. The record also decides which engine call must
//! release the tree: a document drawn from a stream parser goes through the
//! parser-owned destroy call, every other origin through the generic one —
//! mixing the two misbehaves natively and must never happen.

use vstd::prelude::*;

use crate::error::Error;

verus! {

/// What keeps a document's input bytes alive.
#[derive(PartialEq, Eq, Structural, Debug, Clone, Copy)]
pub enum InputOwnership {
    /// The engine took ownership of a caller-supplied buffer.
    EngineBuffer,
    /// The document itself holds the text, borrowed by the engine.
    CallerText,
    /// The document holds a reference to shared, reference-counted parser
    /// state, so the parser and its input buffer outlive the document.
    Parser,
    /// No external input at all (a freshly constructed empty document).
    NoInput,
}

/// The engine call that releases a document's tree.
#[derive(PartialEq, Eq, Structural, Debug, Clone, Copy)]
pub enum DestroyCall {
    /// The generic document-destroy call.
    Generic,
    /// The destroy call for a document loaded from a parser.
    FromParser,
}

/// Chooses the destroy call a document must use: the parser-owned call for
/// stream-produced documents, and the generic call for every other origin.
pub fn destroy_call(ownership: InputOwnership) -> (r: DestroyCall)
    ensures
        r == DestroyCall::FromParser <==> ownership == InputOwnership::Parser,
{
    match ownership {
        InputOwnership::Parser => DestroyCall::FromParser,
        _ => DestroyCall::Generic,
    }
}

/// Admission rule for parse input: empty input is rejected outright with a
/// parse error, distinct from a document whose root is an empty scalar.
pub fn check_parse_input(text: &str) -> (r: Result<(), Error>)
    ensures
        r is Ok <==> text@.len() > 0,
        r is Err ==> (r matches Err(e) && e matches Error::Parse(m) && m@ == "empty input"@),
{
    if text.unicode_len() == 0 {
        Err(Error::Parse("empty input"))
    } else {
        Ok(())
    }
}

/// What one step of a document stream yields.
#[derive(PartialEq, Eq, Structural, Debug, Clone, Copy)]
pub enum StreamStep {
    /// The engine produced the next document.
    Yield,
    /// The engine produced nothing and reports a stream-level error: the
    /// stream ends with an error item.
    Fault,
    /// The engine produced nothing and reports no error: the clean end of
    /// the stream.
    End,
}

/// The stream-step rule: a produced document is yielded; an absent result
/// that coincides with a stream-level error is a fault, distinct from the
/// clean end of the stream.
pub fn stream_step(produced: bool, stream_error: bool) -> (r: StreamStep)
    ensures
        produced ==> r == StreamStep::Yield,
        !produced && stream_error ==> r == StreamStep::Fault,
        !produced && !stream_error ==> r == StreamStep::End,
{
    if produced {
        StreamStep::Yield
    } else if stream_error {
        StreamStep::Fault
    } else {
        StreamStep::End
    }
}

/// Sanity rule for an engine-reported scalar length before it is trusted:
/// anything above the signed address range is refused.
pub fn check_scalar_len(len: usize) -> (r: Result<(), Error>)
    ensures
        r is Ok <==> len <= usize::MAX / 2,
        r is Err ==> r == Err::<(), Error>(Error::ScalarTooLarge(len)),
{
    if len > usize::MAX / 2 {
        Err(Error::ScalarTooLarge(len))
    } else {
        Ok(())
    }
}

} // verus!
