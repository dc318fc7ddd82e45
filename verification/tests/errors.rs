//! Tests for the error taxonomy and located parse errors.

use fyaml::{Error, ParseError};

#[test]
fn parse_error_without_location() {
    let pe = ParseError::new("test message");
    assert!(pe.location().is_none());
    assert!(pe.line().is_none());
    assert!(pe.column().is_none());
}

#[test]
fn parse_error_with_full_location() {
    let pe = ParseError::with_location("syntax error", 5, 10);
    assert_eq!(pe.location(), Some((5, 10)));
    assert_eq!(pe.line(), Some(5));
    assert_eq!(pe.column(), Some(10));
    assert_eq!(pe.message(), "syntax error");
}

#[test]
fn parse_error_message_accessor() {
    let pe = ParseError::new("my error message");
    assert_eq!(pe.message(), "my error message");
}

#[test]
fn as_parse_error_returns_some_for_parse_error() {
    let pe = ParseError::with_location("test", 1, 1);
    let err = Error::from(pe);
    assert!(err.as_parse_error().is_some());
    assert_eq!(err.as_parse_error().unwrap().line(), Some(1));
}

#[test]
fn as_parse_error_returns_none_for_other_errors() {
    let err = Error::Ffi("test");
    assert!(err.as_parse_error().is_none());

    let err = Error::Parse("test");
    assert!(err.as_parse_error().is_none());

    let err = Error::Io("test");
    assert!(err.as_parse_error().is_none());
}

#[test]
fn parse_error_equality() {
    let pe1 = ParseError::with_location("error", 1, 2);
    let pe2 = ParseError::with_location("error", 1, 2);
    let pe3 = ParseError::with_location("error", 1, 3);

    assert_eq!(pe1, pe2);
    assert_ne!(pe1, pe3);
}

#[test]
fn parse_error_clone() {
    let pe1 = ParseError::with_location("error", 5, 10);
    let pe2 = pe1.clone();
    assert_eq!(pe1, pe2);
}

#[test]
fn error_variants_distinguish() {
    let a = Error::TypeMismatch { expected: "scalar", got: "mapping" };
    let b = Error::TypeMismatch { expected: "scalar", got: "sequence" };
    assert_ne!(a, b);
    assert_ne!(Error::DocumentMismatch, Error::MutationWhileIterating);
    assert_eq!(Error::ScalarTooLarge(9), Error::ScalarTooLarge(9));
    assert_ne!(Error::Utf8(0), Error::Utf8(1));
    assert_ne!(Error::Alloc("x"), Error::Io("x"));
}
