//! Tests for path handling, editor planning, diagnostics normalization and
//! document rules.

use fyaml::diag::{error_from_capture, located_error, normalize_position};
use fyaml::document::{
    check_parse_input, check_scalar_len, destroy_call, stream_step, DestroyCall, InputOwnership,
    StreamStep,
};
use fyaml::editor::{
    check_append_target, delete_target, plan_child_delete, plan_child_set, DeletePlan,
    HandleOwnership, ParentFacts, SetPlan, SetTarget,
};
use fyaml::path::{is_root_path, parse_index, resolve_index, split_path};
use fyaml::{Error, NodeType, ParseError};

// ==================== Paths ====================

#[test]
fn split_path_cases() {
    assert_eq!(split_path("/foo/bar"), ("/foo", "bar"));
    assert_eq!(split_path("/key"), ("", "key"));
    assert_eq!(split_path("key"), ("", "key"));
    assert_eq!(split_path("/a/b/c"), ("/a/b", "c"));
    assert_eq!(split_path("/items/-1"), ("/items", "-1"));
    assert_eq!(split_path("a/b"), ("a", "b"));
    assert_eq!(split_path("/a/"), ("/a", ""));
    assert_eq!(split_path("//"), ("/", ""));
    assert_eq!(split_path(""), ("", ""));
}

#[test]
fn root_path_spellings() {
    assert!(is_root_path(""));
    assert!(is_root_path("/"));
    assert!(!is_root_path("/a"));
    assert!(!is_root_path("a"));
    assert!(!is_root_path("//"));
}

#[test]
fn parse_index_cases() {
    assert_eq!(parse_index("0"), Some(0));
    assert_eq!(parse_index("3"), Some(3));
    assert_eq!(parse_index("-1"), Some(-1));
    assert_eq!(parse_index("+2"), Some(2));
    assert_eq!(parse_index(""), None);
    assert_eq!(parse_index("-"), None);
    assert_eq!(parse_index("x"), None);
    assert_eq!(parse_index("0x10"), None);
    assert_eq!(parse_index("2147483647"), Some(i32::MAX));
    assert_eq!(parse_index("-2147483648"), Some(i32::MIN));
    assert_eq!(parse_index("2147483648"), None);
}

#[test]
fn resolve_index_from_end() {
    // In a sequence of length N, index -1 addresses the same element as
    // N - 1, and -(N + 1) addresses nothing.
    let n: usize = 3;
    assert_eq!(resolve_index(n, -1), resolve_index(n, n as i32 - 1));
    assert_eq!(resolve_index(n, -(n as i32 + 1)), None);
    assert_eq!(resolve_index(n, -1), Some(2));
    assert_eq!(resolve_index(n, -3), Some(0));
    assert_eq!(resolve_index(n, -4), None);
    assert_eq!(resolve_index(n, 0), Some(0));
    assert_eq!(resolve_index(n, 2), Some(2));
    assert_eq!(resolve_index(n, 3), None);
    assert_eq!(resolve_index(0, 0), None);
    assert_eq!(resolve_index(0, -1), None);
}

// ==================== Editor planning ====================

#[test]
fn set_target_root_and_child() {
    assert!(matches!(fyaml::editor::set_target(""), SetTarget::Root));
    assert!(matches!(fyaml::editor::set_target("/"), SetTarget::Root));
    match fyaml::editor::set_target("/items/-1") {
        SetTarget::Child { parent_path, key } => {
            assert_eq!(parent_path, "/items");
            assert_eq!(key, "-1");
        },
        SetTarget::Root => panic!("expected a child target"),
    }
}

#[test]
fn plan_set_in_mapping() {
    assert!(matches!(
        plan_child_set(Some(ParentFacts::Mapping { key_found: true }), "name"),
        Ok(SetPlan::ReplaceValue)
    ));
    assert!(matches!(
        plan_child_set(Some(ParentFacts::Mapping { key_found: false }), "age"),
        Ok(SetPlan::AppendPair)
    ));
}

#[test]
fn plan_set_in_sequence() {
    // Replacing the last element appends the new node; replacing an
    // earlier one inserts before the captured successor.
    assert!(matches!(
        plan_child_set(Some(ParentFacts::Sequence { len: 3 }), "-1"),
        Ok(SetPlan::SeqReplace { remove_at: 2, append: true })
    ));
    assert!(matches!(
        plan_child_set(Some(ParentFacts::Sequence { len: 3 }), "0"),
        Ok(SetPlan::SeqReplace { remove_at: 0, append: false })
    ));
    assert!(matches!(
        plan_child_set(Some(ParentFacts::Sequence { len: 3 }), "-3"),
        Ok(SetPlan::SeqReplace { remove_at: 0, append: false })
    ));
    assert_eq!(
        plan_child_set(Some(ParentFacts::Sequence { len: 2 }), "5"),
        Err(Error::Ffi("sequence index out of bounds"))
    );
    assert_eq!(
        plan_child_set(Some(ParentFacts::Sequence { len: 2 }), "-5"),
        Err(Error::Ffi("sequence index out of bounds"))
    );
    assert_eq!(
        plan_child_set(Some(ParentFacts::Sequence { len: 2 }), "abc"),
        Err(Error::Ffi("invalid sequence index"))
    );
}

#[test]
fn plan_set_bad_parents() {
    assert_eq!(
        plan_child_set(None, "k"),
        Err(Error::Ffi("parent path not found"))
    );
    assert_eq!(
        plan_child_set(Some(ParentFacts::Scalar), "k"),
        Err(Error::TypeMismatch { expected: "mapping or sequence", got: "scalar" })
    );
}

#[test]
fn delete_root_is_error_not_false() {
    assert_eq!(
        delete_target(""),
        Err(Error::Ffi("cannot delete root via delete_at"))
    );
    assert_eq!(
        delete_target("/"),
        Err(Error::Ffi("cannot delete root via delete_at"))
    );
    assert_eq!(delete_target("/age"), Ok(("", "age")));
}

#[test]
fn delete_missing_is_false_not_error() {
    // A missing parent, or a mapping without the key, deletes nothing.
    assert!(matches!(plan_child_delete(None, "k"), Ok(DeletePlan::Nothing)));
    assert!(matches!(
        plan_child_delete(Some(ParentFacts::Mapping { key_found: false }), "k"),
        Ok(DeletePlan::Nothing)
    ));
    assert!(matches!(
        plan_child_delete(Some(ParentFacts::Mapping { key_found: true }), "k"),
        Ok(DeletePlan::MapRemove)
    ));
}

#[test]
fn delete_in_sequence() {
    assert!(matches!(
        plan_child_delete(Some(ParentFacts::Sequence { len: 3 }), "-1"),
        Ok(DeletePlan::SeqRemove { index: -1 })
    ));
    assert_eq!(
        plan_child_delete(Some(ParentFacts::Sequence { len: 3 }), "x"),
        Err(Error::Ffi("invalid sequence index"))
    );
    assert_eq!(
        plan_child_delete(Some(ParentFacts::Scalar), "x"),
        Err(Error::TypeMismatch { expected: "mapping or sequence", got: "scalar" })
    );
}

#[test]
fn append_target_must_be_sequence() {
    assert_eq!(check_append_target(NodeType::Sequence), Ok(()));
    assert_eq!(
        check_append_target(NodeType::Mapping),
        Err(Error::TypeMismatch { expected: "sequence", got: "non-sequence" })
    );
    assert_eq!(
        check_append_target(NodeType::Scalar),
        Err(Error::TypeMismatch { expected: "sequence", got: "non-sequence" })
    );
}

#[test]
fn handle_ownership_lifecycle() {
    // A handle starts detached and owns its node; a dropped detached
    // handle frees it; insertion hands it to the tree exactly once.
    let mut h = HandleOwnership::new();
    assert_eq!(h, HandleOwnership::Detached);
    assert!(h.frees_on_drop());
    h.mark_inserted();
    assert_eq!(h, HandleOwnership::Inserted);
    assert!(!h.frees_on_drop());
}

// ==================== Diagnostics ====================

#[test]
fn positions_normalize_to_one_based() {
    assert_eq!(normalize_position(-1), None);
    assert_eq!(normalize_position(-7), None);
    assert_eq!(normalize_position(0), Some(1));
    assert_eq!(normalize_position(4), Some(5));
    assert_eq!(normalize_position(i32::MAX), Some(i32::MAX as u32 + 1));
}

#[test]
fn located_error_normalizes_both_positions() {
    let e = located_error("bad flow", 1, 0);
    assert_eq!(e.message(), "bad flow");
    assert_eq!(e.line(), Some(2));
    assert_eq!(e.column(), Some(1));
    assert_eq!(e.location(), Some((2, 1)));

    let e = located_error("no position", -1, -1);
    assert_eq!(e.line(), None);
    assert_eq!(e.column(), None);
    assert_eq!(e.location(), None);
}

#[test]
fn capture_prefers_located_error() {
    let pe = ParseError::with_location("detail", 2, 3);
    let e = error_from_capture(Some(pe.clone()), "fallback");
    assert_eq!(e, Error::ParseError(pe));
    let e = error_from_capture(None, "fallback");
    assert_eq!(e, Error::Parse("fallback"));
}

// ==================== Document rules ====================

#[test]
fn stream_documents_use_parser_destroy_call() {
    assert_eq!(destroy_call(InputOwnership::Parser), DestroyCall::FromParser);
    assert_eq!(destroy_call(InputOwnership::EngineBuffer), DestroyCall::Generic);
    assert_eq!(destroy_call(InputOwnership::CallerText), DestroyCall::Generic);
    assert_eq!(destroy_call(InputOwnership::NoInput), DestroyCall::Generic);
}

#[test]
fn stream_end_is_distinct_from_stream_fault() {
    assert_eq!(stream_step(true, false), StreamStep::Yield);
    // A produced document is yielded even if an error flag lingers.
    assert_eq!(stream_step(true, true), StreamStep::Yield);
    assert_eq!(stream_step(false, true), StreamStep::Fault);
    assert_eq!(stream_step(false, false), StreamStep::End);
}

#[test]
fn empty_parse_input_is_rejected() {
    assert_eq!(check_parse_input(""), Err(Error::Parse("empty input")));
    assert_eq!(check_parse_input("a: 1"), Ok(()));
    assert_eq!(check_parse_input("\n"), Ok(()));
}

#[test]
fn oversized_scalar_lengths_are_refused() {
    assert_eq!(check_scalar_len(0), Ok(()));
    assert_eq!(check_scalar_len(4096), Ok(()));
    assert_eq!(check_scalar_len(usize::MAX / 2), Ok(()));
    assert_eq!(
        check_scalar_len(usize::MAX / 2 + 1),
        Err(Error::ScalarTooLarge(usize::MAX / 2 + 1))
    );
}
