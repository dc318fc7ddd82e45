//! Tests for the scalar type-inference rules.

use fyaml::scalar_parse::{parse_int, IntValue};
use fyaml::{is_null, needs_quoting, parse_bool, parse_i64, parse_u64};

#[test]
fn test_is_null() {
    assert!(is_null(""));
    assert!(is_null("~"));
    assert!(is_null("null"));
    assert!(is_null("NULL"));
    assert!(is_null("Null"));
    assert!(!is_null("nil"));
    assert!(!is_null("none"));
}

#[test]
fn test_parse_bool() {
    assert_eq!(parse_bool("true"), Some(true));
    assert_eq!(parse_bool("True"), Some(true));
    assert_eq!(parse_bool("TRUE"), Some(true));
    assert_eq!(parse_bool("yes"), Some(true));
    assert_eq!(parse_bool("on"), Some(true));
    assert_eq!(parse_bool("false"), Some(false));
    assert_eq!(parse_bool("False"), Some(false));
    assert_eq!(parse_bool("no"), Some(false));
    assert_eq!(parse_bool("off"), Some(false));
    assert_eq!(parse_bool("maybe"), None);
}

#[test]
fn test_parse_i64_decimal() {
    assert_eq!(parse_i64("42"), Some(42));
    assert_eq!(parse_i64("-10"), Some(-10));
    assert_eq!(parse_i64("+5"), Some(5));
    assert_eq!(parse_i64("0"), Some(0));
}

#[test]
fn test_parse_i64_radix() {
    assert_eq!(parse_i64("0xFF"), Some(255));
    assert_eq!(parse_i64("0xff"), Some(255));
    assert_eq!(parse_i64("-0xFF"), Some(-255));
    assert_eq!(parse_i64("0o77"), Some(63));
    assert_eq!(parse_i64("-0o77"), Some(-63));
    assert_eq!(parse_i64("0b1010"), Some(10));
    assert_eq!(parse_i64("-0b1010"), Some(-10));
}

#[test]
fn test_parse_i64_boundaries() {
    assert_eq!(parse_i64(&i64::MAX.to_string()), Some(i64::MAX));
    assert_eq!(parse_i64(&i64::MIN.to_string()), Some(i64::MIN));
    // Overflow returns None
    assert_eq!(parse_i64("9223372036854775808"), None); // i64::MAX + 1
}

#[test]
fn test_parse_u64() {
    assert_eq!(parse_u64("42"), Some(42));
    assert_eq!(parse_u64("+5"), Some(5));
    assert_eq!(parse_u64("-10"), None); // Negative returns None
    assert_eq!(parse_u64("0xFF"), Some(255));
}

#[test]
fn test_parse_u64_large() {
    assert_eq!(parse_u64(&u64::MAX.to_string()), Some(u64::MAX));
    // Values > i64::MAX but <= u64::MAX
    let large = (i64::MAX as u64) + 1;
    assert_eq!(parse_u64(&large.to_string()), Some(large));
}

#[test]
fn parse_bool_all_spellings() {
    for s in ["true", "True", "TRUE", "yes", "Yes", "YES", "on", "On", "ON"] {
        assert_eq!(parse_bool(s), Some(true), "{s}");
    }
    for s in ["false", "False", "FALSE", "no", "No", "NO", "off", "Off", "OFF"] {
        assert_eq!(parse_bool(s), Some(false), "{s}");
    }
    for s in ["tRuE", "YES!", "onn", "o", "1", "0", ""] {
        assert_eq!(parse_bool(s), None, "{s}");
    }
}

#[test]
fn parse_i64_rejects_malformed() {
    assert_eq!(parse_i64(""), None);
    assert_eq!(parse_i64("-"), None);
    assert_eq!(parse_i64("+"), None);
    assert_eq!(parse_i64("0x"), None);
    assert_eq!(parse_i64("0xGG"), None);
    assert_eq!(parse_i64("12a"), None);
    assert_eq!(parse_i64("1 2"), None);
    assert_eq!(parse_i64("--5"), None);
    assert_eq!(parse_i64("0x-10"), None);
}

#[test]
fn parse_i64_radix_case_variants() {
    assert_eq!(parse_i64("0XFF"), Some(255));
    assert_eq!(parse_i64("0xAbCdEf"), Some(0xABCDEF));
    assert_eq!(parse_i64("0O77"), Some(63));
    assert_eq!(parse_i64("0B1010"), Some(10));
    assert_eq!(parse_i64("+0xFF"), Some(255));
}

#[test]
fn parse_u64_rejects_negative_and_overflow() {
    assert_eq!(parse_u64("-1"), None);
    assert_eq!(parse_u64("-"), None);
    assert_eq!(parse_u64("18446744073709551616"), None); // u64::MAX + 1
    assert_eq!(parse_u64("0xFFFFFFFFFFFFFFFF"), Some(u64::MAX));
    assert_eq!(parse_u64("0x10000000000000000"), None);
}

#[test]
fn parse_int_prefers_unsigned_for_non_negative() {
    assert_eq!(parse_int("42"), Some(IntValue::UInt(42)));
    assert_eq!(parse_int("+42"), Some(IntValue::UInt(42)));
    assert_eq!(parse_int("0"), Some(IntValue::UInt(0)));
    assert_eq!(parse_int("-10"), Some(IntValue::Int(-10)));
    assert_eq!(parse_int(&i64::MIN.to_string()), Some(IntValue::Int(i64::MIN)));
    // Above the signed range, only the unsigned representation holds it.
    assert_eq!(parse_int(&u64::MAX.to_string()), Some(IntValue::UInt(u64::MAX)));
    assert_eq!(parse_int("1.5"), None);
    assert_eq!(parse_int("x"), None);
}

#[test]
fn needs_quoting_null_and_bool_words() {
    for s in ["", "~", "null", "Null", "NULL", "true", "false", "yes", "no", "on", "off", "True", "FALSE"] {
        assert!(needs_quoting(s), "{s:?}");
    }
}

#[test]
fn needs_quoting_numbers() {
    for s in ["42", "-10", "+5", "0xFF", "0o77", "0b1010", "3.14", "1e3", "1E3", "1.5e-2", "-1e3", ".5", "5.", ".inf", "+.inf", "-.inf", ".nan", ".NaN", ".INF", "99999999999999999999.0"] {
        assert!(needs_quoting(s), "{s:?}");
    }
}

#[test]
fn needs_quoting_plain_strings_stay_plain() {
    for s in ["hello", "hello world", "a1", "1a", "-", "+", ".", "e5", "1.2.3", "1e", "1e+", "nan", "inf", "infinity", "null!", "0x", "--5", "truthy"] {
        assert!(!needs_quoting(s), "{s:?}");
    }
}
