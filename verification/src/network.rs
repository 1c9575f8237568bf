//! Card networks, told apart by the first two characters of an issuer
//! pattern: how long their card numbers and verification codes are.

use vstd::prelude::*;
use vstd::string::StrSliceExecFns;

verus! {

/// Whether `bin` begins with the characters `a` and `b`.
pub open spec fn starts_with_pair(bin: Seq<char>, a: char, b: char) -> bool {
    bin.len() >= 2 && bin[0] == a && bin[1] == b
}

/// Patterns that begin with "34" or "37": fifteen-digit numbers with a
/// four-digit verification code.
pub open spec fn is_fifteen_digit_network(bin: Seq<char>) -> bool {
    starts_with_pair(bin, '3', '4') || starts_with_pair(bin, '3', '7')
}

/// Patterns that begin with "30", "36", "38" or "39": fourteen-digit numbers.
pub open spec fn is_fourteen_digit_network(bin: Seq<char>) -> bool {
    starts_with_pair(bin, '3', '0') || starts_with_pair(bin, '3', '6') || starts_with_pair(
        bin,
        '3',
        '8',
    ) || starts_with_pair(bin, '3', '9')
}

/// The length of a card number for the pattern `bin`, check digit included.
pub open spec fn card_length_of(bin: Seq<char>) -> nat {
    if is_fifteen_digit_network(bin) {
        15
    } else if is_fourteen_digit_network(bin) {
        14
    } else {
        16
    }
}

/// The length of a verification code for the pattern `bin`.
pub open spec fn cvv_length_of(bin: Seq<char>) -> nat {
    if is_fifteen_digit_network(bin) {
        4
    } else {
        3
    }
}

/// The second character of a pattern that begins with `'3'`, if it has one.
fn second_after_three(bin: &str) -> (second: Option<char>)
    ensures
        match second {
            Some(c) => starts_with_pair(bin@, '3', c),
            None => forall|c: char| !starts_with_pair(bin@, '3', c),
        },
{
    if bin.unicode_len() >= 2 && bin.get_char(0) == '3' {
        Some(bin.get_char(1))
    } else {
        None
    }
}

/// The length of a card number for the pattern `bin`: 15, 14 or 16.
pub fn card_length(bin: &str) -> (length: usize)
    ensures
        length == card_length_of(bin@),
        length == 14 || length == 15 || length == 16,
{
    match second_after_three(bin) {
        Some(c) => {
            if c == '4' || c == '7' {
                15
            } else if c == '0' || c == '6' || c == '8' || c == '9' {
                14
            } else {
                16
            }
        },
        None => 16,
    }
}

/// The length of a verification code for the pattern `bin`: 4 or 3.
pub fn cvv_length(bin: &str) -> (length: usize)
    ensures
        length == cvv_length_of(bin@),
        length == 3 || length == 4,
{
    match second_after_three(bin) {
        Some(c) => {
            if c == '4' || c == '7' {
                4
            } else {
                3
            }
        },
        None => 3,
    }
}

} // verus!
