//! Path addressing into a tree.
//!
//! A path is `/`-separated, JSON-Pointer-like: `/key` selects a mapping
//! entry, `/3` a sequence index, `/-1` a sequence index counted from the
//! end; the empty path denotes the node itself. This module splits paths
//! into parent and last segment, recognizes the root path, reads a segment
//! as a sequence index, and resolves negative indices against a length.

use vstd::prelude::*;

use crate::scalar_parse::spec_radix_value;

verus! {

/// The index of the last `/` in `p`, or `-1` when there is none.
pub open spec fn spec_last_slash(p: Seq<char>) -> int
    decreases p.len(),
{
    if p.len() == 0 {
        -1
    } else if p.last() == '/' {
        p.len() - 1
    } else {
        spec_last_slash(p.drop_last())
    }
}

/// The parent part of a path: everything before the last `/`, or the empty
/// path when there is no `/` or it comes first.
pub open spec fn spec_parent_of(p: Seq<char>) -> Seq<char> {
    let i = spec_last_slash(p);
    if i <= 0 {
        Seq::empty()
    } else {
        p.take(i)
    }
}

/// The last segment of a path: everything after the last `/`, or the whole
/// path when there is no `/`.
pub open spec fn spec_key_of(p: Seq<char>) -> Seq<char> {
    let i = spec_last_slash(p);
    if i < 0 {
        p
    } else {
        p.skip(i + 1)
    }
}

/// True for the two spellings of the root path: empty, or a single `/`.
pub open spec fn spec_is_root_path(p: Seq<char>) -> bool {
    p.len() == 0 || (p.len() == 1 && p[0] == '/')
}

proof fn lemma_last_slash_at(s: Seq<char>, k: int)
    requires
        0 <= k < s.len(),
        s[k] == '/',
        forall|l: int| k < l < s.len() ==> s[l] != '/',
    ensures
        spec_last_slash(s) == k,
    decreases s.len(),
{
    if k == s.len() - 1 {
    } else {
        assert(s.last() != '/');
        assert(s.drop_last()[k] == s[k]);
        lemma_last_slash_at(s.drop_last(), k);
    }
}

proof fn lemma_no_slash(s: Seq<char>)
    requires
        forall|l: int| 0 <= l < s.len() ==> s[l] != '/',
    ensures
        spec_last_slash(s) == -1,
    decreases s.len(),
{
    if s.len() > 0 {
        lemma_no_slash(s.drop_last());
    }
}

/// Splits a path into its parent path and its last segment.
///
/// `/foo/bar` gives `("/foo", "bar")`; `/key` gives `("", "key")`; a path
/// without `/` is all segment.
pub fn split_path(path: &str) -> (r: (&str, &str))
    ensures
        r.0@ == spec_parent_of(path@),
        r.1@ == spec_key_of(path@),
{
    let n = path.unicode_len();
    let mut j: usize = n;
    while j > 0
        invariant
            j <= n,
            n == path@.len(),
            forall|l: int| j <= l < n ==> path@[l] != '/',
        decreases j,
    {
        if path.get_char(j - 1) == '/' {
            proof {
                lemma_last_slash_at(path@, j - 1);
            }
            let parent = if j == 1 {
                proof {
                    assert(path@.take(0) =~= Seq::<char>::empty());
                }
                path.substring_char(0, 0)
            } else {
                path.substring_char(0, j - 1)
            };
            let key = path.substring_char(j, n);
            proof {
                assert(key@ =~= path@.skip(j as int));
            }
            return (parent, key);
        }
        j = j - 1;
    }
    proof {
        lemma_no_slash(path@);
        assert(path@.subrange(0, 0) =~= Seq::<char>::empty());
    }
    (path.substring_char(0, 0), path)
}

/// Recognizes the root path: the empty string or a single `/`.
pub fn is_root_path(path: &str) -> (r: bool)
    ensures
        r == spec_is_root_path(path@),
{
    let n = path.unicode_len();
    n == 0 || (n == 1 && path.get_char(0) == '/')
}

/// The sequence-index rule for a path segment: an optional sign, then a
/// non-empty decimal digit string, within the signed 32-bit range.
pub open spec fn spec_parse_index(s: Seq<char>) -> Option<i32> {
    let neg = s.len() > 0 && s[0] == '-';
    let body = if s.len() > 0 && (s[0] == '-' || s[0] == '+') {
        s.skip(1)
    } else {
        s
    };
    match spec_radix_value(body, 10) {
        Some(m) => {
            let v = if neg {
                -m
            } else {
                m
            };
            if i32::MIN <= v <= i32::MAX {
                Some(v as i32)
            } else {
                None
            }
        },
        None => None,
    }
}

/// Reads a path segment as a signed sequence index: decimal digits after an
/// optional sign.
pub fn parse_index(s: &str) -> (r: Option<i32>)
    ensures
        r == spec_parse_index(s@),
{
    let n = s.unicode_len();
    let mut neg = false;
    let mut start: usize = 0;
    if n > 0 {
        let c = s.get_char(0);
        if c == '-' {
            neg = true;
            start = 1;
        } else if c == '+' {
            start = 1;
        }
    }
    proof {
        if start == 0 {
            assert(s@.skip(0) =~= s@);
        }
    }
    match crate::scalar_parse::scan_digits(s, start, 10) {
        None => None,
        Some(m) => {
            if neg {
                if m <= 0x8000_0000u64 {
                    if m == 0x8000_0000u64 {
                        Some(i32::MIN)
                    } else {
                        Some(-(m as i32))
                    }
                } else {
                    None
                }
            } else {
                if m <= 0x7fff_ffffu64 {
                    Some(m as i32)
                } else {
                    None
                }
            }
        },
    }
}

/// Resolving an index against a sequence length: a non-negative index
/// stands as it is; a negative one counts from the end. Out of range on
/// either side is `None` — not found, never an error.
pub open spec fn spec_resolve_index(len: int, index: int) -> Option<int> {
    if index >= 0 {
        if index < len {
            Some(index)
        } else {
            None
        }
    } else {
        if len + index >= 0 {
            Some(len + index)
        } else {
            None
        }
    }
}

/// Resolves a possibly negative sequence index against a length.
pub fn resolve_index(len: usize, index: i32) -> (r: Option<usize>)
    ensures
        match r {
            Some(k) => spec_resolve_index(len as int, index as int) == Some(k as int),
            None => spec_resolve_index(len as int, index as int) is None,
        },
{
    if index >= 0 {
        let k = index as usize;
        if k < len {
            Some(k)
        } else {
            None
        }
    } else {
        let mag: usize = if index == i32::MIN {
            0x8000_0000usize
        } else {
            (-index) as usize
        };
        if mag <= len {
            Some(len - mag)
        } else {
            None
        }
    }
}

/// The from-the-end addressing law: in a sequence of length `n`, index `-1`
/// resolves to the same position as `n - 1`, and index `-(n + 1)` resolves
/// to nothing at all.
pub proof fn lemma_index_from_end(n: int)
    requires
        n >= 1,
    ensures
        spec_resolve_index(n, -1) == spec_resolve_index(n, n - 1),
        spec_resolve_index(n, -(n + 1)) is None,
{
}

} // verus!
