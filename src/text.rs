//! Values written as text in a device description: booleans, integers in
//! decimal or `0x` hexadecimal, and the names of the element enumerations.
use vstd::prelude::*;

use crate::error::{GenApiError, GenApiResult};

verus! {

/// Whether two strings hold the same characters.
pub fn str_eq(a: &str, b: &str) -> (r: bool)
    ensures
        r == (a@ == b@),
{
    let n = a.unicode_len();
    if n != b.unicode_len() {
        return false;
    }
    let mut i: usize = 0;
    while i < n
        invariant
            n == a@.len() == b@.len(),
            i <= n,
            forall|j: int| 0 <= j < i ==> a@[j] == b@[j],
        decreases n - i,
    {
        if a.get_char(i) != b.get_char(i) {
            return false;
        }
        i = i + 1;
    }
    assert(a@ =~= b@);
    true
}

/// The value of a digit character in bases up to 36, or `-1`.
pub open spec fn digit_value(c: char) -> int {
    if '0' <= c <= '9' {
        c as int - '0' as int
    } else if 'a' <= c <= 'z' {
        c as int - 'a' as int + 10
    } else if 'A' <= c <= 'Z' {
        c as int - 'A' as int + 10
    } else {
        -1
    }
}

pub open spec fn all_digits(s: Seq<char>, radix: u32) -> bool {
    forall|i: int| 0 <= i < s.len() ==> 0 <= #[trigger] digit_value(s[i]) < radix
}

/// The number that the digits `s` write in base `radix`.
pub open spec fn digits_value(s: Seq<char>, radix: u32) -> int
    decreases s.len(),
{
    if s.len() == 0 {
        0
    } else {
        digits_value(s.drop_last(), radix) * radix + digit_value(s.last())
    }
}

/// The number that `s` writes: an optional sign (`-` only when `signed`),
/// then one digit or more, nothing else.
pub open spec fn text_number(s: Seq<char>, radix: u32, signed: bool) -> Option<int> {
    if s.len() > 0 && s[0] == '-' && signed {
        let d = s.drop_first();
        if d.len() > 0 && all_digits(d, radix) {
            Some(-digits_value(d, radix))
        } else {
            None
        }
    } else if s.len() > 0 && s[0] == '+' {
        let d = s.drop_first();
        if d.len() > 0 && all_digits(d, radix) {
            Some(digits_value(d, radix))
        } else {
            None
        }
    } else if s.len() > 0 && all_digits(s, radix) {
        Some(digits_value(s, radix))
    } else {
        None
    }
}

/// Relies on `i64::from_str_radix`: an optional `+` or `-`, then digits of
/// the radix, and a value in range; anything else is an error.
#[verifier::external_body]
fn i64_from_str_radix(s: &str, radix: u32) -> (r: Option<i64>)
    requires
        2 <= radix <= 36,
    ensures
        r matches Some(v) ==> text_number(s@, radix, true) == Some(v as int),
        r is None ==> !(text_number(s@, radix, true) matches Some(n) && i64::MIN <= n
            <= i64::MAX),
{
    i64::from_str_radix(s, radix).ok()
}

/// Relies on `u64::from_str_radix`: an optional `+`, then digits of the
/// radix, and a value in range; anything else is an error.
#[verifier::external_body]
fn u64_from_str_radix(s: &str, radix: u32) -> (r: Option<u64>)
    requires
        2 <= radix <= 36,
    ensures
        r matches Some(v) ==> text_number(s@, radix, false) == Some(v as int),
        r is None ==> !(text_number(s@, radix, false) matches Some(n) && 0 <= n <= u64::MAX),
{
    u64::from_str_radix(s, radix).ok()
}

/// `s` starts with `0x` or `0X`.
pub open spec fn has_hex_prefix(s: Seq<char>) -> bool {
    s.len() >= 2 && s[0] == '0' && (s[1] == 'x' || s[1] == 'X')
}

/// The integer that `s` writes: hexadecimal after a `0x` or `0X` prefix,
/// else decimal.
pub open spec fn int_text(s: Seq<char>, signed: bool) -> Option<int> {
    if has_hex_prefix(s) {
        text_number(s.subrange(2, s.len() as int), 16, signed)
    } else {
        text_number(s, 10, signed)
    }
}

fn hex_prefix(value: &str) -> (r: bool)
    ensures
        r == has_hex_prefix(value@),
{
    let n = value.unicode_len();
    n >= 2 && value.get_char(0) == '0' && (value.get_char(1) == 'x' || value.get_char(1) == 'X')
}

/// Reads a signed integer, decimal or `0x` hexadecimal; text that writes
/// none, or one out of range, is `InvalidData`.
pub fn convert_to_int(value: &str) -> (r: GenApiResult<i64>)
    ensures
        r matches Ok(v) ==> int_text(value@, true) == Some(v as int),
        r is Err ==> r == Err::<i64, GenApiError>(GenApiError::InvalidData) && !(int_text(
            value@,
            true,
        ) matches Some(n) && i64::MIN <= n <= i64::MAX),
{
    let parsed = if hex_prefix(value) {
        let digits = value.substring_char(2, value.unicode_len());
        i64_from_str_radix(digits, 16)
    } else {
        i64_from_str_radix(value, 10)
    };
    match parsed {
        Some(v) => Ok(v),
        None => Err(GenApiError::InvalidData),
    }
}

/// Reads an unsigned integer, decimal or `0x` hexadecimal; text that writes
/// none, or one out of range, is `InvalidData`.
pub fn convert_to_uint(value: &str) -> (r: GenApiResult<u64>)
    ensures
        r matches Ok(v) ==> int_text(value@, false) == Some(v as int),
        r is Err ==> r == Err::<u64, GenApiError>(GenApiError::InvalidData) && !(int_text(
            value@,
            false,
        ) matches Some(n) && 0 <= n <= u64::MAX),
{
    let parsed = if hex_prefix(value) {
        let digits = value.substring_char(2, value.unicode_len());
        u64_from_str_radix(digits, 16)
    } else {
        u64_from_str_radix(value, 10)
    };
    match parsed {
        Some(v) => Ok(v),
        None => Err(GenApiError::InvalidData),
    }
}

/// The boolean that `s` writes: `Yes` or `true`, `No` or `false`.
pub open spec fn bool_text(s: Seq<char>) -> Option<bool> {
    if s == "Yes"@ || s == "true"@ {
        Some(true)
    } else if s == "No"@ || s == "false"@ {
        Some(false)
    } else {
        None
    }
}

pub fn convert_to_bool_opt(value: &str) -> (r: Option<bool>)
    ensures
        r == bool_text(value@),
{
    if str_eq(value, "Yes") || str_eq(value, "true") {
        Some(true)
    } else if str_eq(value, "No") || str_eq(value, "false") {
        Some(false)
    } else {
        None
    }
}

pub fn convert_to_bool(value: &str) -> (r: bool)
    requires
        bool_text(value@) is Some,
    ensures
        bool_text(value@) == Some(r),
{
    convert_to_bool_opt(value).unwrap()
}

} // verus!
