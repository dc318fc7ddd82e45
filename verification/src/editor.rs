//! Mutation decisions of the editor, and the detached-node ownership state.
//!
//! The editor holds exclusive access to one document. Every mutation it
//! performs is first planned here, as a pure decision over the path and the
//! facts an engine lookup produced (parent kind, key lookup outcome,
//! sequence length); the unverified side then carries the plan out with the
//! engine's primitive calls.

use vstd::prelude::*;

use crate::error::Error;
use crate::node::NodeType;
use crate::path::{
    is_root_path, parse_index, resolve_index, spec_is_root_path, spec_key_of, spec_parent_of,
    spec_parse_index, spec_resolve_index, split_path,
};

verus! {

// ===========================================================================
// Detached-node ownership
// ===========================================================================

/// The ownership state of a freshly built node that is not yet linked into
/// any tree. A handle starts detached and owns its node; a successful
/// insertion transfers ownership to the tree, exactly once.
#[derive(PartialEq, Eq, Structural, Debug, Clone, Copy)]
pub enum HandleOwnership {
    /// The handle owns the node; dropping the handle must free it.
    Detached,
    /// The tree owns the node; dropping the handle must do nothing.
    Inserted,
}

/// True when dropping a handle in this state must free its node.
pub open spec fn spec_frees_on_drop(h: HandleOwnership) -> bool {
    h == HandleOwnership::Detached
}

impl HandleOwnership {
    /// The state of a handle as built, for specification use.
    pub open spec fn new_spec() -> HandleOwnership {
        HandleOwnership::Detached
    }

    /// A fresh handle: detached, owning its node.
    pub fn new() -> (r: HandleOwnership)
        ensures
            r == HandleOwnership::Detached,
    {
        HandleOwnership::Detached
    }

    /// Records that the engine accepted the insertion. Valid only once: a
    /// node cannot be given to the tree twice.
    pub fn mark_inserted(&mut self)
        requires
            *old(self) == HandleOwnership::Detached,
        ensures
            *final(self) == HandleOwnership::Inserted,
    {
        *self = HandleOwnership::Inserted;
    }

    /// Whether dropping the handle must free the node now.
    pub fn frees_on_drop(&self) -> (r: bool)
        ensures
            r == spec_frees_on_drop(*self),
    {
        match self {
            HandleOwnership::Detached => true,
            HandleOwnership::Inserted => false,
        }
    }
}

/// The free-unless-claimed law: in every handle state, exactly one of
/// "freed on drop" and "owned by the tree" holds — never both, never
/// neither. A handle built and dropped without insertion therefore frees
/// its node exactly once, and an inserted one never does.
pub proof fn lemma_handle_free_exclusive(h: HandleOwnership)
    ensures
        spec_frees_on_drop(h) <==> h != HandleOwnership::Inserted,
        spec_frees_on_drop(HandleOwnership::new_spec()),
{
}

// ===========================================================================
// Set-at-path planning
// ===========================================================================

/// Where a set operation lands: the whole root, or one child of a parent.
#[derive(Debug, PartialEq, Eq, Clone, Copy)]
pub enum SetTarget<'a> {
    /// The root path was given: replace the whole tree root.
    Root,
    /// A child is addressed: the parent path and the last segment.
    Child {
        /// The path of the parent node (empty means the root itself).
        parent_path: &'a str,
        /// The last path segment: a mapping key or a sequence index.
        key: &'a str,
    },
}

/// Splits a set path into its target: the root for the empty path or `/`,
/// else the parent path and last segment.
pub fn set_target<'a>(path: &'a str) -> (r: SetTarget<'a>)
    ensures
        spec_is_root_path(path@) ==> r is Root,
        !spec_is_root_path(path@) ==> (r matches SetTarget::Child { parent_path, key }
            && parent_path@ == spec_parent_of(path@) && key@ == spec_key_of(path@)),
{
    if is_root_path(path) {
        SetTarget::Root
    } else {
        let (parent_path, key) = split_path(path);
        SetTarget::Child { parent_path, key }
    }
}

/// What an engine lookup found out about the parent node of a mutation.
#[derive(Debug, PartialEq, Eq, Clone, Copy)]
pub enum ParentFacts {
    /// The parent is a mapping; whether the last segment matched an
    /// existing key.
    Mapping {
        /// True when a pair with the segment as its key already exists.
        key_found: bool,
    },
    /// The parent is a sequence of the given length.
    Sequence {
        /// The number of items in the sequence.
        len: usize,
    },
    /// The parent is a scalar and can hold no children.
    Scalar,
}

/// The planned way to set a child under its parent.
#[derive(Debug, PartialEq, Eq, Clone, Copy)]
pub enum SetPlan {
    /// The mapping already has the key: replace the existing pair's value
    /// in place.
    ReplaceValue,
    /// The mapping lacks the key: build a scalar key node and append a new
    /// pair.
    AppendPair,
    /// Replace one sequence element: remove the element at `remove_at`,
    /// then re-insert the new node — by appending when the removed element
    /// was the last, else immediately before its captured successor (the
    /// element that stood at `remove_at + 1` before the removal).
    SeqReplace {
        /// The resolved, in-bounds position of the element to remove.
        remove_at: usize,
        /// True when the removed element is the last one, so the new node
        /// is appended instead of inserted before a successor.
        append: bool,
    },
}

/// Plans how to set a child node, from the parent facts and the last path
/// segment.
///
/// A missing parent is an error; a mapping takes the segment as a key; a
/// sequence takes it as a signed index, resolved Python-style against the
/// length and bounds-checked; a scalar parent is a type mismatch.
pub fn plan_child_set(parent: Option<ParentFacts>, key: &str) -> (r: Result<SetPlan, Error>)
    ensures
        match parent {
            None => r matches Err(e) && e matches Error::Ffi(m) && m@ == "parent path not found"@,
            Some(ParentFacts::Mapping { key_found }) => if key_found {
                r matches Ok(p) && p is ReplaceValue
            } else {
                r matches Ok(p) && p is AppendPair
            },
            Some(ParentFacts::Sequence { len }) => match spec_parse_index(key@) {
                None => r matches Err(e) && e matches Error::Ffi(m) && m@
                    == "invalid sequence index"@,
                Some(idx) => match spec_resolve_index(len as int, idx as int) {
                    None => r matches Err(e) && e matches Error::Ffi(m) && m@
                        == "sequence index out of bounds"@,
                    Some(k) => r matches Ok(p) && p matches SetPlan::SeqReplace {
                        remove_at,
                        append,
                    } && remove_at == k && append == (k == len - 1),
                },
            },
            Some(ParentFacts::Scalar) => r matches Err(e) && e matches Error::TypeMismatch {
                expected,
                got,
            } && expected@ == "mapping or sequence"@ && got@ == "scalar"@,
        },
{
    match parent {
        None => Err(Error::Ffi("parent path not found")),
        Some(ParentFacts::Mapping { key_found }) => {
            if key_found {
                Ok(SetPlan::ReplaceValue)
            } else {
                Ok(SetPlan::AppendPair)
            }
        },
        Some(ParentFacts::Sequence { len }) => {
            match parse_index(key) {
                None => Err(Error::Ffi("invalid sequence index")),
                Some(idx) => {
                    match resolve_index(len, idx) {
                        None => Err(Error::Ffi("sequence index out of bounds")),
                        Some(k) => Ok(SetPlan::SeqReplace { remove_at: k, append: k == len - 1 }),
                    }
                },
            }
        },
        Some(ParentFacts::Scalar) => Err(
            Error::TypeMismatch { expected: "mapping or sequence", got: "scalar" },
        ),
    }
}

/// The sequence-replacement law: carrying out a `SeqReplace` plan — remove
/// the element at `k`, then re-insert the new one by appending when `k` was
/// last, else before the captured successor — produces exactly the sequence
/// with position `k` replaced. Every other element keeps its place: after
/// replacing the last element of three, the first two are unchanged.
pub proof fn lemma_seq_replace_is_update<T>(s: Seq<T>, k: int, v: T)
    requires
        0 <= k < s.len(),
    ensures
        ({
            let removed = s.remove(k);
            let reinserted = if k == s.len() - 1 {
                removed.push(v)
            } else {
                removed.insert(k, v)
            };
            reinserted =~= s.update(k, v)
        }),
{
    let removed = s.remove(k);
    if k == s.len() - 1 {
        assert(removed.push(v) =~= s.update(k, v));
    } else {
        assert(removed.insert(k, v) =~= s.update(k, v));
    }
}

// ===========================================================================
// Delete-at-path planning
// ===========================================================================

/// Splits a delete path into parent path and last segment, refusing the
/// root: deleting `/` or the empty path is an error, never `false` — a
/// dedicated root-replacement operation exists instead.
pub fn delete_target<'a>(path: &'a str) -> (r: Result<(&'a str, &'a str), Error>)
    ensures
        spec_is_root_path(path@) ==> (r matches Err(e) && e matches Error::Ffi(m) && m@
            == "cannot delete root via delete_at"@),
        !spec_is_root_path(path@) ==> (r matches Ok(t) && t.0@ == spec_parent_of(path@) && t.1@
            == spec_key_of(path@)),
{
    if is_root_path(path) {
        Err(Error::Ffi("cannot delete root via delete_at"))
    } else {
        Ok(split_path(path))
    }
}

/// The planned way to delete a child under its parent.
#[derive(Debug, PartialEq, Eq, Clone, Copy)]
pub enum DeletePlan {
    /// Nothing to delete: the parent or the target does not exist. The
    /// operation reports `false`, not an error.
    Nothing,
    /// Remove the pair whose key matched the segment from the mapping, and
    /// free the removed nodes.
    MapRemove,
    /// Remove the element addressed by this possibly negative index from
    /// the sequence, and free it; an index that resolves to no element
    /// reports `false`.
    SeqRemove {
        /// The signed index read from the last path segment.
        index: i32,
    },
}

/// Plans how to delete a child node, from the parent facts and the last
/// path segment.
///
/// A missing parent, or a mapping without the key, deletes nothing (and is
/// not an error); a sequence takes the segment as a signed index; a scalar
/// parent is a type mismatch. A segment that is not an index at all is an
/// error, as the engine was already asked for a sequence element.
pub fn plan_child_delete(parent: Option<ParentFacts>, key: &str) -> (r: Result<DeletePlan, Error>)
    ensures
        match parent {
            None => r matches Ok(p) && p is Nothing,
            Some(ParentFacts::Mapping { key_found }) => if key_found {
                r matches Ok(p) && p is MapRemove
            } else {
                r matches Ok(p) && p is Nothing
            },
            Some(ParentFacts::Sequence { len }) => match spec_parse_index(key@) {
                None => r matches Err(e) && e matches Error::Ffi(m) && m@
                    == "invalid sequence index"@,
                Some(idx) => r matches Ok(p) && p matches DeletePlan::SeqRemove { index } && index
                    == idx,
            },
            Some(ParentFacts::Scalar) => r matches Err(e) && e matches Error::TypeMismatch {
                expected,
                got,
            } && expected@ == "mapping or sequence"@ && got@ == "scalar"@,
        },
{
    match parent {
        None => Ok(DeletePlan::Nothing),
        Some(ParentFacts::Mapping { key_found }) => {
            if key_found {
                Ok(DeletePlan::MapRemove)
            } else {
                Ok(DeletePlan::Nothing)
            }
        },
        Some(ParentFacts::Sequence { len: _ }) => {
            match parse_index(key) {
                None => Err(Error::Ffi("invalid sequence index")),
                Some(idx) => Ok(DeletePlan::SeqRemove { index: idx }),
            }
        },
        Some(ParentFacts::Scalar) => Err(
            Error::TypeMismatch { expected: "mapping or sequence", got: "scalar" },
        ),
    }
}

// ===========================================================================
// Append-at-path check
// ===========================================================================

/// Admission rule for appending at a path: the target node must be a
/// sequence.
pub fn check_append_target(kind: NodeType) -> (r: Result<(), Error>)
    ensures
        r is Ok <==> kind == NodeType::Sequence,
        r is Err ==> (r matches Err(e) && e matches Error::TypeMismatch { expected, got }
            && expected@ == "sequence"@ && got@ == "non-sequence"@),
{
    if kind == NodeType::Sequence {
        Ok(())
    } else {
        Err(Error::TypeMismatch { expected: "sequence", got: "non-sequence" })
    }
}

} // verus!
