//! Integers written as text: which texts the standard library reads as a
//! number, and as which.

use std::num::ParseIntError;
use vstd::prelude::*;

verus! {

/// The value of a character as a digit of the given radix, if it is one:
/// `0` to `9` stand for zero to nine, the letters of either case for ten
/// and more.
pub open spec fn digit_of(c: char, radix: nat) -> Option<nat> {
    let v = c as int;
    let d = if 48 <= v <= 57 {
        v - 48
    } else if 97 <= v <= 122 {
        v - 87
    } else if 65 <= v <= 90 {
        v - 55
    } else {
        -1
    };
    if 0 <= d < radix {
        Some(d as nat)
    } else {
        None
    }
}

/// Whether every character is a digit of the radix.
pub open spec fn all_digits(digits: Seq<char>, radix: nat) -> bool {
    forall|i: int| 0 <= i < digits.len() ==> (#[trigger] digit_of(digits[i], radix)) is Some
}

/// The number that a sequence of digits denotes, most significant digit
/// first.
pub open spec fn digits_value(digits: Seq<char>, radix: nat) -> nat
    decreases digits.len(),
{
    if digits.len() == 0 {
        0
    } else {
        radix * digits_value(digits.drop_last(), radix) + match digit_of(digits.last(), radix) {
            Some(d) => d,
            None => 0,
        }
    }
}

/// The digits of an unsigned number: the text without a leading plus sign.
pub open spec fn unsigned_digits(token: Seq<char>) -> Seq<char> {
    if token.len() > 0 && token[0] == '+' {
        token.drop_first()
    } else {
        token
    }
}

/// Whether a text is an unsigned number of the radix that fits in 64 bits:
/// an optional plus sign, then one or more digits and nothing else.
pub open spec fn parses_as_u64(token: Seq<char>, radix: nat) -> bool {
    let digits = unsigned_digits(token);
    &&& digits.len() > 0
    &&& all_digits(digits, radix)
    &&& digits_value(digits, radix) <= u64::MAX
}

/// The number that such a text denotes.
pub open spec fn u64_value(token: Seq<char>, radix: nat) -> u64 {
    digits_value(unsigned_digits(token), radix) as u64
}

/// Whether a text starts with a minus sign.
pub open spec fn is_negative(token: Seq<char>) -> bool {
    token.len() > 0 && token[0] == '-'
}

/// The digits of a signed number: the text without a leading sign.
pub open spec fn signed_digits(token: Seq<char>) -> Seq<char> {
    if token.len() > 0 && (token[0] == '+' || token[0] == '-') {
        token.drop_first()
    } else {
        token
    }
}

/// The number that a signed decimal text denotes.
pub open spec fn signed_value(token: Seq<char>) -> int {
    if is_negative(token) {
        -(digits_value(signed_digits(token), 10) as int)
    } else {
        digits_value(signed_digits(token), 10) as int
    }
}

/// Whether a text is a signed decimal number that fits in 32 bits: an
/// optional sign, then one or more digits and nothing else.
pub open spec fn parses_as_i32(token: Seq<char>) -> bool {
    let digits = signed_digits(token);
    &&& digits.len() > 0
    &&& all_digits(digits, 10)
    &&& i32::MIN <= signed_value(token) <= i32::MAX
}

/// The error type of the standard library's integer parsers, which the
/// verifier is told to carry through without looking inside.
#[verifier::external_type_specification]
#[verifier::external_body]
pub struct ExParseIntError(ParseIntError);

/// Calls `u64::from_str_radix`.
///
/// Taken on trust from the standard library's documentation: the call
/// succeeds exactly on an optional plus sign followed by one or more digits
/// of the radix and nothing else, where the number fits in 64 bits, and it
/// then returns that number. It panics on a radix outside 2 to 36, which the
/// precondition rules out.
#[verifier::external_body]
pub(crate) fn parse_u64(token: &str, radix: u32) -> (parsed: Result<u64, ParseIntError>)
    requires
        2 <= radix <= 36,
    ensures
        parsed is Ok <==> parses_as_u64(token@, radix as nat),
        parsed matches Ok(value) ==> value == u64_value(token@, radix as nat),
{
    u64::from_str_radix(token, radix)
}

/// Calls `i32::from_str_radix` with radix 10.
///
/// Taken on trust from the standard library's documentation: the call
/// succeeds exactly on an optional sign followed by one or more decimal
/// digits and nothing else, where the number fits in 32 bits, and it then
/// returns that number.
#[verifier::external_body]
pub(crate) fn parse_i32(token: &str) -> (parsed: Result<i32, ParseIntError>)
    ensures
        parsed is Ok <==> parses_as_i32(token@),
        parsed matches Ok(value) ==> value == signed_value(token@),
{
    i32::from_str_radix(token, 10)
}

} // verus!
