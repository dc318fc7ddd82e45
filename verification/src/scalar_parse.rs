//! Scalar type inference for plain YAML scalars.
//!
//! These rules interpret the text of a plain (unquoted) scalar as null,
//! boolean or number. They are pure functions of the text alone and are
//! independent of any document tree. Boolean spellings follow the YAML 1.1
//! compatibility set (`yes`/`no`, `on`/`off`) in addition to `true`/`false`;
//! this is a deliberate compatibility choice, not an oversight.

use vstd::prelude::*;

verus! {

// ===========================================================================
// Character classes and digit values
// ===========================================================================

/// True when `c` is a digit of the given radix (2, 8, 10 or 16).
pub open spec fn is_digit(c: char, radix: int) -> bool {
    if radix == 16 {
        is_dec_digit(c) || ('a' as u32 <= c as u32 && c as u32 <= 'f' as u32) || ('A' as u32
            <= c as u32 && c as u32 <= 'F' as u32)
    } else if radix == 8 {
        '0' as u32 <= c as u32 && c as u32 <= '7' as u32
    } else if radix == 2 {
        c == '0' || c == '1'
    } else {
        is_dec_digit(c)
    }
}

/// True when `c` is a decimal digit.
pub open spec fn is_dec_digit(c: char) -> bool {
    '0' as u32 <= c as u32 && c as u32 <= '9' as u32
}

/// The numeric value of a digit character.
pub open spec fn digit_value(c: char) -> int {
    if is_dec_digit(c) {
        c as u32 - '0' as u32
    } else if 'a' as u32 <= c as u32 && c as u32 <= 'f' as u32 {
        c as u32 - 'a' as u32 + 10
    } else {
        c as u32 - 'A' as u32 + 10
    }
}

/// True when every character of `s` is a digit of the given radix.
pub open spec fn all_digits(s: Seq<char>, radix: int) -> bool {
    forall|i: int| 0 <= i < s.len() ==> is_digit(#[trigger] s[i], radix)
}

/// The value of a digit string read in the given radix.
pub open spec fn digits_value(s: Seq<char>, radix: int) -> int
    decreases s.len(),
{
    if s.len() == 0 {
        0
    } else {
        digits_value(s.drop_last(), radix) * radix + digit_value(s.last())
    }
}

// ===========================================================================
// Null
// ===========================================================================

/// True when `s` spells the null word `null` in any ASCII case mix.
pub open spec fn is_null_word(s: Seq<char>) -> bool {
    s.len() == 4 && (s[0] == 'n' || s[0] == 'N') && (s[1] == 'u' || s[1] == 'U') && (s[2] == 'l'
        || s[2] == 'L') && (s[3] == 'l' || s[3] == 'L')
}

/// The null rule: the empty string, `~`, or `null` (case-insensitive).
pub open spec fn spec_is_null(s: Seq<char>) -> bool {
    s.len() == 0 || (s.len() == 1 && s[0] == '~') || is_null_word(s)
}

/// Checks whether a plain scalar represents null.
///
/// Recognizes the empty string, `~`, and `null` in any ASCII case mix
/// (exact match, not substring).
pub fn is_null(s: &str) -> (r: bool)
    ensures
        r == spec_is_null(s@),
{
    let n = s.unicode_len();
    if n == 0 {
        return true;
    }
    if n == 1 {
        return s.get_char(0) == '~';
    }
    if n == 4 {
        let c0 = s.get_char(0);
        let c1 = s.get_char(1);
        let c2 = s.get_char(2);
        let c3 = s.get_char(3);
        return (c0 == 'n' || c0 == 'N') && (c1 == 'u' || c1 == 'U') && (c2 == 'l' || c2 == 'L') && (
        c3 == 'l' || c3 == 'L');
    }
    false
}

// ===========================================================================
// Boolean
// ===========================================================================

/// The boolean rule: the YAML 1.1 spellings, and no others.
pub open spec fn spec_parse_bool(s: Seq<char>) -> Option<bool> {
    if s == "true"@ || s == "True"@ || s == "TRUE"@ || s == "yes"@ || s == "Yes"@ || s == "YES"@
        || s == "on"@ || s == "On"@ || s == "ON"@ {
        Some(true)
    } else if s == "false"@ || s == "False"@ || s == "FALSE"@ || s == "no"@ || s == "No"@ || s
        == "NO"@ || s == "off"@ || s == "Off"@ || s == "OFF"@ {
        Some(false)
    } else {
        None
    }
}

/// Compares two string slices character by character.
fn str_eq(a: &str, b: &str) -> (r: bool)
    ensures
        r == (a@ == b@),
{
    let n = a.unicode_len();
    if n != b.unicode_len() {
        return false;
    }
    let mut i: usize = 0;
    while i < n
        invariant
            i <= n,
            n == a@.len(),
            n == b@.len(),
            forall|j: int| 0 <= j < i ==> a@[j] == b@[j],
        decreases n - i,
    {
        if a.get_char(i) != b.get_char(i) {
            return false;
        }
        i = i + 1;
    }
    proof {
        assert(a@ =~= b@);
    }
    true
}

/// Parses a plain scalar as a boolean.
///
/// Recognizes the YAML 1.1 boolean spellings:
/// - true: `true`, `True`, `TRUE`, `yes`, `Yes`, `YES`, `on`, `On`, `ON`
/// - false: `false`, `False`, `FALSE`, `no`, `No`, `NO`, `off`, `Off`, `OFF`
pub fn parse_bool(s: &str) -> (r: Option<bool>)
    ensures
        r == spec_parse_bool(s@),
{
    if str_eq(s, "true") || str_eq(s, "True") || str_eq(s, "TRUE") || str_eq(s, "yes") || str_eq(
        s,
        "Yes",
    ) || str_eq(s, "YES") || str_eq(s, "on") || str_eq(s, "On") || str_eq(s, "ON") {
        Some(true)
    } else if str_eq(s, "false") || str_eq(s, "False") || str_eq(s, "FALSE") || str_eq(s, "no")
        || str_eq(s, "No") || str_eq(s, "NO") || str_eq(s, "off") || str_eq(s, "Off") || str_eq(
        s,
        "OFF",
    ) {
        Some(false)
    } else {
        None
    }
}

// ===========================================================================
// Integer magnitude
// ===========================================================================

/// The magnitude grammar: a decimal digit string, or one prefixed with
/// `0x`/`0X` (hex), `0o`/`0O` (octal) or `0b`/`0B` (binary). The digit part
/// must be non-empty. Returns the value, unbounded.
pub open spec fn spec_magnitude(s: Seq<char>) -> Option<int> {
    if s.len() >= 2 && s[0] == '0' && (s[1] == 'x' || s[1] == 'X') {
        spec_radix_value(s.skip(2), 16)
    } else if s.len() >= 2 && s[0] == '0' && (s[1] == 'o' || s[1] == 'O') {
        spec_radix_value(s.skip(2), 8)
    } else if s.len() >= 2 && s[0] == '0' && (s[1] == 'b' || s[1] == 'B') {
        spec_radix_value(s.skip(2), 2)
    } else {
        spec_radix_value(s, 10)
    }
}

/// The value of a non-empty all-digit string, or `None`.
pub open spec fn spec_radix_value(s: Seq<char>, radix: int) -> Option<int> {
    if s.len() > 0 && all_digits(s, radix) {
        Some(digits_value(s, radix))
    } else {
        None
    }
}

/// The signed integer rule: an optional leading sign, then a magnitude; the
/// value must lie in the signed 64-bit range.
pub open spec fn spec_parse_i64(s: Seq<char>) -> Option<i64> {
    let neg = s.len() > 0 && s[0] == '-';
    let body = if s.len() > 0 && (s[0] == '-' || s[0] == '+') {
        s.skip(1)
    } else {
        s
    };
    match spec_magnitude(body) {
        Some(m) => {
            let v = if neg {
                -m
            } else {
                m
            };
            if i64::MIN <= v <= i64::MAX {
                Some(v as i64)
            } else {
                None
            }
        },
        None => None,
    }
}

/// The unsigned integer rule: as the signed rule, but a leading `-` is
/// rejected outright, and the value must fit in 64 unsigned bits.
pub open spec fn spec_parse_u64(s: Seq<char>) -> Option<u64> {
    if s.len() > 0 && s[0] == '-' {
        None
    } else {
        let body = if s.len() > 0 && s[0] == '+' {
            s.skip(1)
        } else {
            s
        };
        match spec_magnitude(body) {
            Some(m) => if m <= u64::MAX {
                Some(m as u64)
            } else {
                None
            },
            None => None,
        }
    }
}

proof fn lemma_digits_value_nonneg(s: Seq<char>, radix: int)
    requires
        2 <= radix,
        all_digits(s, radix),
    ensures
        digits_value(s, radix) >= 0,
    decreases s.len(),
{
    if s.len() > 0 {
        lemma_digits_value_nonneg(s.drop_last(), radix);
        assert(digit_value(s.last()) >= 0);
        assert(digits_value(s.drop_last(), radix) * radix >= 0) by (nonlinear_arith)
            requires
                digits_value(s.drop_last(), radix) >= 0,
                radix >= 2,
        ;
    }
}

/// With every digit valid, the value of a prefix never exceeds the value of
/// the whole string.
proof fn lemma_digits_value_prefix_le(s: Seq<char>, radix: int, i: int)
    requires
        2 <= radix,
        0 <= i <= s.len(),
        all_digits(s, radix),
    ensures
        digits_value(s.take(i), radix) <= digits_value(s, radix),
    decreases s.len() - i,
{
    if i == s.len() {
        assert(s.take(i) =~= s);
    } else {
        let p = s.take(i);
        let q = s.take(i + 1);
        assert(q.drop_last() =~= p);
        assert(q.last() == s[i]);
        assert(forall|j: int| 0 <= j < p.len() ==> is_digit(#[trigger] p[j], radix));
        lemma_digits_value_nonneg(p, radix);
        assert(digits_value(p, radix) * radix >= digits_value(p, radix)) by (nonlinear_arith)
            requires
                digits_value(p, radix) >= 0,
                radix >= 2,
        ;
        assert(digits_value(q, radix) >= digits_value(p, radix));
        lemma_digits_value_prefix_le(s, radix, i + 1);
    }
}

/// Reads one digit character of the given radix.
fn digit_of(c: char, radix: u64) -> (r: Option<u64>)
    requires
        radix == 2 || radix == 8 || radix == 10 || radix == 16,
    ensures
        match r {
            Some(v) => is_digit(c, radix as int) && v == digit_value(c) && v < radix,
            None => !is_digit(c, radix as int),
        },
{
    let u = c as u32;
    if radix == 16 {
        if 48 <= u && u <= 57 {
            Some((u - 48) as u64)
        } else if 97 <= u && u <= 102 {
            Some((u - 97 + 10) as u64)
        } else if 65 <= u && u <= 70 {
            Some((u - 65 + 10) as u64)
        } else {
            None
        }
    } else if radix == 8 {
        if 48 <= u && u <= 55 {
            Some((u - 48) as u64)
        } else {
            None
        }
    } else if radix == 2 {
        if u == 48 || u == 49 {
            Some((u - 48) as u64)
        } else {
            None
        }
    } else {
        if 48 <= u && u <= 57 {
            Some((u - 48) as u64)
        } else {
            None
        }
    }
}

/// Scans the digits of `s` from position `from` to the end, in the given
/// radix, accumulating the value and refusing anything above the unsigned
/// 64-bit range.
pub(crate) fn scan_digits(s: &str, from: usize, radix: u64) -> (r: Option<u64>)
    requires
        radix == 2 || radix == 8 || radix == 10 || radix == 16,
        from <= s@.len(),
    ensures
        match r {
            Some(v) => spec_radix_value(s@.skip(from as int), radix as int) == Some(v as int),
            None => {
                let m = spec_radix_value(s@.skip(from as int), radix as int);
                m is None || m.unwrap() > u64::MAX
            },
        },
{
    let ghost d = s@.skip(from as int);
    let n = s.unicode_len();
    if from == n {
        return None;
    }
    let mut acc: u64 = 0;
    let mut i: usize = from;
    while i < n
        invariant
            from <= i <= n,
            n == s@.len(),
            radix == 2 || radix == 8 || radix == 10 || radix == 16,
            d == s@.skip(from as int),
            all_digits(s@.subrange(from as int, i as int), radix as int),
            acc == digits_value(s@.subrange(from as int, i as int), radix as int),
        decreases n - i,
    {
        let c = s.get_char(i);
        match digit_of(c, radix) {
            None => {
                proof {
                    assert(d[i - from] == s@[i as int]);
                    assert(!all_digits(d, radix as int));
                }
                return None;
            },
            Some(dv) => {
                proof {
                    assert((acc as u128) * (radix as u128) <= 0xffff_ffff_ffff_ffffu128 * 16)
                        by (nonlinear_arith)
                        requires
                            acc <= u64::MAX,
                            radix <= 16,
                    ;
                }
                let wide: u128 = (acc as u128) * (radix as u128) + (dv as u128);
                proof {
                    let p = s@.subrange(from as int, i as int);
                    let q = s@.subrange(from as int, i + 1);
                    assert(q.drop_last() =~= p);
                    assert(q.last() == s@[i as int]);
                    assert(q =~= d.take(i + 1 - from));
                }
                if wide > 0xffff_ffff_ffff_ffffu128 {
                    proof {
                        let q = s@.subrange(from as int, i + 1);
                        assert(digits_value(q, radix as int) == wide);
                        if all_digits(d, radix as int) {
                            lemma_digits_value_prefix_le(d, radix as int, i + 1 - from);
                            assert(digits_value(d, radix as int) >= wide);
                        }
                    }
                    return None;
                }
                acc = wide as u64;
            },
        }
        i = i + 1;
    }
    proof {
        assert(s@.subrange(from as int, n as int) =~= d);
    }
    Some(acc)
}

/// Scans a magnitude: an optional radix prefix, then its digits.
fn scan_magnitude(s: &str, from: usize) -> (r: Option<u64>)
    requires
        from <= s@.len(),
    ensures
        match r {
            Some(v) => spec_magnitude(s@.skip(from as int)) == Some(v as int),
            None => {
                let m = spec_magnitude(s@.skip(from as int));
                m is None || m.unwrap() > u64::MAX
            },
        },
{
    let ghost d = s@.skip(from as int);
    let n = s.unicode_len();
    if from < n && from + 1 < n && s.get_char(from) == '0' {
        let c1 = s.get_char(from + 1);
        proof {
            assert(d.len() >= 2);
            assert(d[0] == s@[from as int]);
            assert(d[1] == s@[from + 1]);
        }
        if c1 == 'x' || c1 == 'X' {
            proof {
                assert(s@.skip(from + 2) =~= d.skip(2));
            }
            return scan_digits(s, from + 2, 16);
        }
        if c1 == 'o' || c1 == 'O' {
            proof {
                assert(s@.skip(from + 2) =~= d.skip(2));
            }
            return scan_digits(s, from + 2, 8);
        }
        if c1 == 'b' || c1 == 'B' {
            proof {
                assert(s@.skip(from + 2) =~= d.skip(2));
            }
            return scan_digits(s, from + 2, 2);
        }
        return scan_digits(s, from, 10);
    }
    proof {
        if d.len() >= 2 {
            assert(d[0] == s@[from as int]);
        }
    }
    scan_digits(s, from, 10)
}

/// Parses a plain scalar as a signed 64-bit integer.
///
/// Supports decimal, hexadecimal (`0x`), octal (`0o`) and binary (`0b`)
/// digits after an optional leading `+` or `-`, including the most negative
/// 64-bit value; anything outside the signed 64-bit range yields `None`.
pub fn parse_i64(s: &str) -> (r: Option<i64>)
    ensures
        r == spec_parse_i64(s@),
{
    let n = s.unicode_len();
    let mut neg = false;
    let mut start: usize = 0;
    if n > 0 {
        let c = s.get_char(0);
        if c == '-' {
            neg = true;
            start = 1;
        } else if c == '+' {
            start = 1;
        }
    }
    proof {
        if start == 1 {
            assert(s@.skip(1) == s@.skip(1));
        } else {
            assert(s@.skip(0) =~= s@);
        }
    }
    match scan_magnitude(s, start) {
        None => None,
        Some(m) => {
            if neg {
                if m <= 0x8000_0000_0000_0000u64 {
                    if m == 0x8000_0000_0000_0000u64 {
                        Some(i64::MIN)
                    } else {
                        Some(-(m as i64))
                    }
                } else {
                    None
                }
            } else {
                if m <= 0x7fff_ffff_ffff_ffffu64 {
                    Some(m as i64)
                } else {
                    None
                }
            }
        },
    }
}

/// Parses a plain scalar as an unsigned 64-bit integer.
///
/// Supports the same digit forms as the signed rule after an optional
/// leading `+`; a leading `-` is rejected.
pub fn parse_u64(s: &str) -> (r: Option<u64>)
    ensures
        r == spec_parse_u64(s@),
{
    let n = s.unicode_len();
    let mut start: usize = 0;
    if n > 0 {
        let c = s.get_char(0);
        if c == '-' {
            return None;
        }
        if c == '+' {
            start = 1;
        }
    }
    proof {
        if start == 0 {
            assert(s@.skip(0) =~= s@);
        }
    }
    scan_magnitude(s, start)
}

/// An inferred integer value: non-negative results prefer the unsigned
/// representation, negative results use the signed one.
#[derive(PartialEq, Eq, Structural, Debug, Clone, Copy)]
pub enum IntValue {
    /// A non-negative integer, or one above the signed range.
    UInt(u64),
    /// A negative integer.
    Int(i64),
}

/// The integer preference rule: a value in the signed range that is not
/// negative is unsigned; a negative one is signed; a value only the
/// unsigned range can hold is unsigned.
pub open spec fn spec_parse_int(s: Seq<char>) -> Option<IntValue> {
    match spec_parse_i64(s) {
        Some(n) => if n >= 0 {
            Some(IntValue::UInt(n as u64))
        } else {
            Some(IntValue::Int(n))
        },
        None => match spec_parse_u64(s) {
            Some(u) => Some(IntValue::UInt(u)),
            None => None,
        },
    }
}

/// Parses a plain scalar as an integer, preferring the unsigned
/// representation for non-negative values.
pub fn parse_int(s: &str) -> (r: Option<IntValue>)
    ensures
        r == spec_parse_int(s@),
{
    match parse_i64(s) {
        Some(n) => {
            if n >= 0 {
                Some(IntValue::UInt(n as u64))
            } else {
                Some(IntValue::Int(n))
            }
        },
        None => {
            match parse_u64(s) {
                Some(u) => Some(IntValue::UInt(u)),
                None => None,
            }
        },
    }
}

// ===========================================================================
// Floats (grammar only; no float value is ever computed here)
// ===========================================================================

/// True when `s`, starting at `k`, spells `.inf` in any ASCII case mix and
/// nothing more.
pub open spec fn is_inf_word(s: Seq<char>, k: int) -> bool {
    s.len() == k + 4 && s[k] == '.' && (s[k + 1] == 'i' || s[k + 1] == 'I') && (s[k + 2] == 'n'
        || s[k + 2] == 'N') && (s[k + 3] == 'f' || s[k + 3] == 'F')
}

/// True when `s` spells `.nan` in any ASCII case mix.
pub open spec fn is_nan_word(s: Seq<char>) -> bool {
    s.len() == 4 && s[0] == '.' && (s[1] == 'n' || s[1] == 'N') && (s[2] == 'a' || s[2] == 'A') && (
    s[3] == 'n' || s[3] == 'N')
}

/// The special float spellings: `.inf`, `+.inf`, `-.inf` and `.nan`,
/// case-insensitive.
pub open spec fn spec_special_float(s: Seq<char>) -> bool {
    is_inf_word(s, 0) || (s.len() > 0 && (s[0] == '+' || s[0] == '-') && is_inf_word(s, 1))
        || is_nan_word(s)
}

/// A float mantissa: decimal digits, with at most one `.` among them and at
/// least one digit.
pub open spec fn spec_mantissa(s: Seq<char>) -> bool {
    (s.len() > 0 && all_digits(s, 10)) || (s.len() >= 2 && exists|i: int|
        0 <= i < s.len() && #[trigger] s[i] == '.' && (forall|j: int|
            0 <= j < s.len() && j != i ==> is_digit(#[trigger] s[j], 10)))
}

/// A float exponent: an optional sign, then a non-empty digit string.
pub open spec fn spec_exponent(s: Seq<char>) -> bool {
    if s.len() > 0 && (s[0] == '+' || s[0] == '-') {
        s.skip(1).len() > 0 && all_digits(s.skip(1), 10)
    } else {
        s.len() > 0 && all_digits(s, 10)
    }
}

/// A float literal after the optional leading sign: a mantissa, optionally
/// followed by `e`/`E` and an exponent.
pub open spec fn spec_float_body(s: Seq<char>) -> bool {
    spec_mantissa(s) || (exists|i: int|
        0 <= i < s.len() && (#[trigger] s[i] == 'e' || s[i] == 'E') && spec_mantissa(s.take(i))
            && spec_exponent(s.skip(i + 1)))
}

/// A decimal float literal: optional sign, then a float body.
pub open spec fn spec_float_lit(s: Seq<char>) -> bool {
    if s.len() > 0 && (s[0] == '+' || s[0] == '-') {
        spec_float_body(s.skip(1))
    } else {
        spec_float_body(s)
    }
}

/// True when `s` holds a decimal point or an exponent marker anywhere; only
/// such text is ever considered for the decimal float grammar.
pub open spec fn spec_has_dot_or_exp(s: Seq<char>) -> bool {
    exists|i: int| 0 <= i < s.len() && (#[trigger] s[i] == '.' || s[i] == 'e' || s[i] == 'E')
}

/// The number rule used for ambiguity checks: a signed or unsigned integer,
/// a special float spelling, or (when a dot or exponent marker is present) a
/// decimal float literal.
pub open spec fn spec_is_number(s: Seq<char>) -> bool {
    spec_parse_i64(s) is Some || spec_parse_u64(s) is Some || spec_special_float(s) || (
    spec_has_dot_or_exp(s) && spec_float_lit(s))
}

/// The ambiguity rule: text that a plain scalar would read as null, boolean
/// or number needs quoting to stay a string.
pub open spec fn spec_needs_quoting(s: Seq<char>) -> bool {
    spec_is_null(s) || spec_parse_bool(s) is Some || spec_is_number(s)
}

fn is_special_float(s: &str) -> (r: bool)
    ensures
        r == spec_special_float(s@),
{
    let n = s.unicode_len();
    if n != 4 && n != 5 {
        return false;
    }
    if n == 5 {
        let c0 = s.get_char(0);
        if !(c0 == '+' || c0 == '-') {
            return false;
        }
        let c1 = s.get_char(1);
        let c2 = s.get_char(2);
        let c3 = s.get_char(3);
        let c4 = s.get_char(4);
        return c1 == '.' && (c2 == 'i' || c2 == 'I') && (c3 == 'n' || c3 == 'N') && (c4 == 'f'
            || c4 == 'F');
    }
    let c0 = s.get_char(0);
    let c1 = s.get_char(1);
    let c2 = s.get_char(2);
    let c3 = s.get_char(3);
    if c0 != '.' {
        return false;
    }
    ((c1 == 'i' || c1 == 'I') && (c2 == 'n' || c2 == 'N') && (c3 == 'f' || c3 == 'F')) || ((c1
        == 'n' || c1 == 'N') && (c2 == 'a' || c2 == 'A') && (c3 == 'n' || c3 == 'N'))
}

fn has_dot_or_exp(s: &str) -> (r: bool)
    ensures
        r == spec_has_dot_or_exp(s@),
{
    let n = s.unicode_len();
    let mut i: usize = 0;
    while i < n
        invariant
            i <= n,
            n == s@.len(),
            forall|j: int| 0 <= j < i ==> !(#[trigger] s@[j] == '.' || s@[j] == 'e' || s@[j] == 'E'),
        decreases n - i,
    {
        let c = s.get_char(i);
        if c == '.' || c == 'e' || c == 'E' {
            return true;
        }
        i = i + 1;
    }
    false
}

/// Checks the mantissa grammar on `s@.subrange(a, b)`.
fn is_mantissa(s: &str, a: usize, b: usize) -> (r: bool)
    requires
        a <= b <= s@.len(),
    ensures
        r == spec_mantissa(s@.subrange(a as int, b as int)),
{
    let ghost m = s@.subrange(a as int, b as int);
    let mut dots: usize = 0;
    let ghost mut dot1: int = 0;
    let ghost mut dot2: int = 0;
    let mut i: usize = a;
    while i < b
        invariant
            a <= i <= b <= s@.len(),
            m == s@.subrange(a as int, b as int),
            dots <= i - a,
            dots <= 1 ==> forall|j: int|
                0 <= j < i - a && (dots == 0 || j != dot1) ==> is_digit(#[trigger] m[j], 10),
            dots == 0 || (0 <= dot1 < i - a && m[dot1] == '.'),
            dots <= 1 || (0 <= dot2 < i - a && dot1 != dot2 && m[dot2] == '.'),
        decreases b - i,
    {
        let c = s.get_char(i);
        proof {
            assert(m[i - a] == s@[i as int]);
        }
        if c == '.' {
            if dots == 0 {
                proof {
                    dot1 = i - a;
                }
            } else if dots == 1 {
                proof {
                    dot2 = i - a;
                }
            }
            dots = dots + 1;
        } else {
            match digit_of(c, 10) {
                None => {
                    proof {
                        let p = i - a;
                        assert(m[p] != '.' && !is_digit(m[p], 10));
                        assert forall|k: int| 0 <= k < m.len() && m[k] == '.' implies !(forall|
                            j: int,
                        | 0 <= j < m.len() && j != k ==> is_digit(#[trigger] m[j], 10)) by {
                            assert(p != k);
                            assert(!is_digit(m[p], 10));
                        }
                        assert(!spec_mantissa(m));
                    }
                    return false;
                },
                Some(_) => {
                },
            }
        }
        i = i + 1;
    }
    if dots == 0 {
        proof {
            if a < b {
                assert(forall|j: int| 0 <= j < m.len() ==> is_digit(#[trigger] m[j], 10));
            }
        }
        return b - a > 0;
    }
    if dots == 1 {
        proof {
            if b - a >= 2 {
                assert(m[dot1] == '.');
                assert(spec_mantissa(m));
            } else {
                assert(m.len() == 1 && m[0] == '.');
                assert(!is_digit(m[0], 10));
                assert(!spec_mantissa(m));
            }
        }
        return b - a >= 2;
    }
    proof {
        assert(m[dot1] == '.' && m[dot2] == '.' && dot1 != dot2);
        assert(!(m.len() > 0 && all_digits(m, 10))) by {
            assert(!is_digit(m[dot1], 10));
        }
        assert forall|k: int| 0 <= k < m.len() && m[k] == '.' implies !(forall|j: int|
            0 <= j < m.len() && j != k ==> is_digit(#[trigger] m[j], 10)) by {
            if k == dot1 {
                assert(!is_digit(m[dot2], 10));
            } else {
                assert(!is_digit(m[dot1], 10));
            }
        }
        assert(!spec_mantissa(m));
    }
    false
}

/// Checks the exponent grammar on `s@.subrange(a, b)`.
fn is_exponent(s: &str, a: usize, b: usize) -> (r: bool)
    requires
        a <= b <= s@.len(),
    ensures
        r == spec_exponent(s@.subrange(a as int, b as int)),
{
    let ghost x = s@.subrange(a as int, b as int);
    if a == b {
        return false;
    }
    let c = s.get_char(a);
    let start: usize = if c == '+' || c == '-' {
        a + 1
    } else {
        a
    };
    let ghost dpart = s@.subrange(start as int, b as int);
    proof {
        assert(x[0] == s@[a as int]);
        if start == a + 1 {
            assert(x.skip(1) =~= dpart);
        } else {
            assert(x =~= dpart);
        }
        assert(spec_exponent(x) == (dpart.len() > 0 && all_digits(dpart, 10)));
    }
    let mut i: usize = start;
    if i == b {
        return false;
    }
    while i < b
        invariant
            start <= i <= b <= s@.len(),
            a <= start,
            dpart == s@.subrange(start as int, b as int),
            x == s@.subrange(a as int, b as int),
            spec_exponent(x) == (dpart.len() > 0 && all_digits(dpart, 10)),
            forall|j: int| 0 <= j < i - start ==> is_digit(#[trigger] dpart[j], 10),
        decreases b - i,
    {
        match digit_of(s.get_char(i), 10) {
            None => {
                proof {
                    assert(dpart[i - start] == s@[i as int]);
                    assert(!all_digits(dpart, 10));
                }
                return false;
            },
            Some(_) => {
                proof {
                    assert(dpart[i - start] == s@[i as int]);
                }
            },
        }
        i = i + 1;
    }
    true
}

/// Checks the decimal float grammar on the whole of `s`.
fn is_float_lit(s: &str) -> (r: bool)
    ensures
        r == spec_float_lit(s@),
{
    let n = s.unicode_len();
    let mut start: usize = 0;
    if n > 0 {
        let c = s.get_char(0);
        if c == '+' || c == '-' {
            start = 1;
        }
    }
    let ghost body = if start == 1 {
        s@.skip(1)
    } else {
        s@
    };
    proof {
        if start == 0 {
            assert(s@.skip(0) =~= s@);
        }
        assert(body =~= s@.subrange(start as int, n as int));
    }
    // Find the first exponent marker, if any.
    let mut e_idx: usize = start;
    let mut has_e = false;
    while e_idx < n && !has_e
        invariant
            start <= e_idx <= n,
            n == s@.len(),
            forall|j: int| start <= j < e_idx ==> !(#[trigger] s@[j] == 'e' || s@[j] == 'E'),
            has_e ==> e_idx < n && (s@[e_idx as int] == 'e' || s@[e_idx as int] == 'E'),
        decreases n - e_idx + (if has_e { 0int } else { 1int }),
    {
        let c = s.get_char(e_idx);
        if c == 'e' || c == 'E' {
            has_e = true;
        } else {
            e_idx = e_idx + 1;
        }
    }
    if !has_e {
        let r = is_mantissa(s, start, n);
        proof {
            assert(s@.subrange(start as int, n as int) == body);
            // No exponent marker anywhere in the body: the split form of the
            // grammar cannot hold either way, so the result is the mantissa
            // check alone.
            assert forall|i: int|
                0 <= i < body.len() && (#[trigger] body[i] == 'e' || body[i] == 'E') implies false by {
                assert(body[i] == s@[start + i]);
            }
        }
        return r;
    }
    let m_ok = is_mantissa(s, start, e_idx);
    if !m_ok {
        proof {
            let bm = body.take(e_idx - start);
            assert(bm =~= s@.subrange(start as int, e_idx as int));
            // Any other candidate split point inside the mantissa part would
            // be an `e` before `e_idx`, which the scan ruled out; any later
            // split leaves the unmatched marker inside its mantissa part.
            assert forall|i: int|
                0 <= i < body.len() && (#[trigger] body[i] == 'e' || body[i] == 'E')
                    && spec_mantissa(body.take(i)) implies false by {
                assert(body[i] == s@[start + i]);
                if start + i < e_idx {
                    assert(!(s@[start + i] == 'e' || s@[start + i] == 'E'));
                } else if start + i == e_idx {
                    assert(body.take(i) == bm);
                } else {
                    let k = e_idx - start;
                    assert(body.take(i)[k] == s@[e_idx as int]);
                    assert(!is_digit(body.take(i)[k], 10));
                    assert(body.take(i)[k] != '.');
                    assert forall|c: int|
                        0 <= c < body.take(i).len() && body.take(i)[c] == '.' implies !(forall|
                        j: int,
                    | 0 <= j < body.take(i).len() && j != c ==> is_digit(
                        #[trigger] body.take(i)[j],
                        10,
                    )) by {
                        assert(c != k);
                    }
                    assert(!spec_mantissa(body.take(i)));
                }
            }
            assert(!spec_mantissa(body)) by {
                let k = e_idx - start;
                assert(body[k] == s@[e_idx as int]);
                assert(!is_digit(body[k], 10));
                assert(body[k] != '.');
                assert forall|c: int| 0 <= c < body.len() && body[c] == '.' implies !(forall|j: int|
                    0 <= j < body.len() && j != c ==> is_digit(#[trigger] body[j], 10)) by {
                    assert(c != k);
                }
            }
        }
        return false;
    }
    let r = is_exponent(s, e_idx + 1, n);
    proof {
        let bi = e_idx - start;
        assert(body[bi] == s@[e_idx as int]);
        assert(body.take(bi) =~= s@.subrange(start as int, e_idx as int));
        assert(body.skip(bi + 1) =~= s@.subrange(e_idx + 1, n as int));
        if r {
            assert(spec_float_body(body));
        } else {
            // The chosen split fails on its exponent; any other split fails
            // on its mantissa, and the plain-mantissa form fails on the
            // marker itself.
            assert(!spec_mantissa(body)) by {
                assert(!is_digit(body[bi], 10));
                assert(body[bi] != '.');
                assert forall|c: int| 0 <= c < body.len() && body[c] == '.' implies !(forall|j: int|
                    0 <= j < body.len() && j != c ==> is_digit(#[trigger] body[j], 10)) by {
                    assert(c != bi);
                }
            }
            assert forall|i: int|
                0 <= i < body.len() && (#[trigger] body[i] == 'e' || body[i] == 'E')
                    && spec_mantissa(body.take(i)) && spec_exponent(body.skip(i + 1)) implies false by {
                assert(body[i] == s@[start + i]);
                if start + i < e_idx {
                    assert(!(s@[start + i] == 'e' || s@[start + i] == 'E'));
                } else if start + i == e_idx {
                    assert(body.skip(i + 1) == s@.subrange(e_idx + 1, n as int));
                } else {
                    let k = e_idx - start;
                    assert(body.take(i)[k] == s@[e_idx as int]);
                    assert(!is_digit(body.take(i)[k], 10));
                    assert(body.take(i)[k] != '.');
                    assert forall|c: int|
                        0 <= c < body.take(i).len() && body.take(i)[c] == '.' implies !(forall|
                        j: int,
                    | 0 <= j < body.take(i).len() && j != c ==> is_digit(
                        #[trigger] body.take(i)[j],
                        10,
                    )) by {
                        assert(c != k);
                    }
                    assert(!spec_mantissa(body.take(i)));
                }
            }
        }
    }
    r
}

/// Checks whether a plain scalar string is ambiguous with another YAML type.
///
/// Returns `true` if the text, emitted as a plain scalar, would read back as
/// null, boolean or number under the rules of this module. Such strings need
/// quoting to round-trip as strings.
pub fn needs_quoting(s: &str) -> (r: bool)
    ensures
        r == spec_needs_quoting(s@),
{
    if is_null(s) {
        return true;
    }
    if parse_bool(s).is_some() {
        return true;
    }
    if parse_i64(s).is_some() {
        return true;
    }
    if parse_u64(s).is_some() {
        return true;
    }
    if is_special_float(s) {
        return true;
    }
    has_dot_or_exp(s) && is_float_lit(s)
}

} // verus!
