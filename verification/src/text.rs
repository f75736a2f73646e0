//! Decimal and hexadecimal text as specifications, and the standard
//! library's parsers for unsigned integers.

use vstd::prelude::*;

verus! {

/// The character of the decimal digit `d`, for `0 <= d < 10`.
pub open spec fn digit_char(d: int) -> char {
    (('0' as int) + d) as char
}

/// The decimal digits of `n`, most significant first, without leading zeros;
/// `"0"` for zero.
pub open spec fn decimal_digits(n: nat) -> Seq<char>
    decreases n,
{
    if n < 10 {
        seq![digit_char(n as int)]
    } else {
        decimal_digits(n / 10).push(digit_char((n % 10) as int))
    }
}

/// `s` with as many `'0'` put in front as it takes to reach `width` characters.
pub open spec fn zero_padded(s: Seq<char>, width: nat) -> Seq<char> {
    if s.len() >= width {
        s
    } else {
        Seq::new((width - s.len()) as nat, |i: int| '0') + s
    }
}

/// The lower-case character of the hexadecimal digit `d`, for `0 <= d < 16`.
pub open spec fn hex_char(d: int) -> char {
    if d < 10 {
        (('0' as int) + d) as char
    } else {
        (('a' as int) + d - 10) as char
    }
}

/// Two lower-case hexadecimal digits for each byte, in order.
pub open spec fn hex_text(bytes: Seq<u8>) -> Seq<char>
    decreases bytes.len(),
{
    if bytes.len() == 0 {
        Seq::empty()
    } else {
        hex_text(bytes.drop_last()).push(hex_char(bytes.last() as int / 16)).push(
            hex_char(bytes.last() as int % 16),
        )
    }
}

/// Whether `c` is one of `'0'` to `'9'`.
pub open spec fn is_digit(c: char) -> bool {
    ('0' as int) <= (c as int) <= ('9' as int)
}

/// Whether `s` holds decimal digits only.
pub open spec fn all_digits(s: Seq<char>) -> bool {
    forall|i: int| 0 <= i < s.len() ==> is_digit(#[trigger] s[i])
}

/// The number that the digits of `s` spell in base ten.
pub open spec fn digits_value(s: Seq<char>) -> nat
    decreases s.len(),
{
    if s.len() == 0 {
        0
    } else {
        (digits_value(s.drop_last()) * 10 + ((s.last() as int) - ('0' as int))) as nat
    }
}

/// What parsing `s` as an unsigned integer of at most `max` gives: an optional
/// `'+'`, then at least one decimal digit and nothing else, spelling a number
/// within the bound.
pub open spec fn parsed_unsigned(s: Seq<char>, max: nat) -> Option<nat> {
    let body = if s.len() > 0 && s[0] == '+' {
        s.skip(1)
    } else {
        s
    };
    if body.len() > 0 && all_digits(body) && digits_value(body) <= max {
        Some(digits_value(body))
    } else {
        None
    }
}

/// Calls `str::parse::<u64>` and drops the error's detail. The contract
/// restates the standard library's documented grammar for unsigned integers:
/// an optional plus sign and decimal digits, rejected when empty, when any
/// other character occurs, or when the number exceeds `u64::MAX`.
#[verifier::external_body]
pub(crate) fn parse_u64(s: &str) -> (parsed: Option<u64>)
    ensures
        (parsed == match parsed_unsigned(s@, u64::MAX as nat) {
            Some(v) => Some(v as u64),
            None => None,
        }),
{
    s.parse::<u64>().ok()
}

/// Calls `str::parse::<u32>` and drops the error's detail. The contract
/// restates the standard library's documented grammar for unsigned integers:
/// an optional plus sign and decimal digits, rejected when empty, when any
/// other character occurs, or when the number exceeds `u32::MAX`.
#[verifier::external_body]
pub(crate) fn parse_u32(s: &str) -> (parsed: Option<u32>)
    ensures
        (parsed == match parsed_unsigned(s@, u32::MAX as nat) {
            Some(v) => Some(v as u32),
            None => None,
        }),
{
    s.parse::<u32>().ok()
}

} // verus!
