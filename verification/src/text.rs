//! Decimal digits as values and as characters.

use vstd::prelude::*;

verus! {

/// Whether `c` is one of the characters `'0'` to `'9'`.
pub open spec fn is_digit_char(c: char) -> bool {
    '0' <= c && c <= '9'
}

/// The character that prints the decimal digit `d`.
pub open spec fn digit_char(d: u8) -> char
    recommends
        d < 10,
{
    ((d + 48) as u8) as char
}

/// The value of a digit character; any other character counts as zero.
pub open spec fn digit_value(c: char) -> u8 {
    if is_digit_char(c) {
        ((c as u8) - 48) as u8
    } else {
        0
    }
}

/// The text that prints a sequence of decimal digits, one character each.
pub open spec fn digits_text(digits: Seq<u8>) -> Seq<char> {
    Seq::new(digits.len(), |i: int| digit_char(digits[i]))
}

/// The digit values of a text, character by character.
pub open spec fn text_digits(text: Seq<char>) -> Seq<u8> {
    Seq::new(text.len(), |i: int| digit_value(text[i]))
}

/// Whether every element is a decimal digit, that is below ten.
pub open spec fn all_digits(digits: Seq<u8>) -> bool {
    forall|i: int| 0 <= i < digits.len() ==> #[trigger] digits[i] < 10
}

/// `String::push` of the standard library appends one character to the end
/// of the string and leaves the characters before it as they were.
pub assume_specification[ String::push ](s: &mut String, c: char)
    ensures
        final(s)@ == old(s)@.push(c),
;

/// The character for a decimal digit.
pub fn char_of_digit(d: u8) -> (c: char)
    requires
        d < 10,
    ensures
        c == digit_char(d),
        is_digit_char(c),
        digit_value(c) == d,
{
    (d + 48u8) as char
}

/// The value of a character read as a decimal digit, zero where it is none.
pub fn digit_of_char(c: char) -> (d: u8)
    ensures
        d == digit_value(c),
        d < 10,
{
    if '0' <= c && c <= '9' {
        (c as u8) - 48u8
    } else {
        0u8
    }
}

/// Reading back the text of a digit sequence gives the digits again.
pub proof fn lemma_text_digits_of_digits_text(digits: Seq<u8>)
    requires
        all_digits(digits),
    ensures
        text_digits(digits_text(digits)) == digits,
        forall|i: int| 0 <= i < digits.len() ==> is_digit_char(#[trigger] digits_text(digits)[i]),
{
    assert(text_digits(digits_text(digits)) =~= digits);
}

/// Prints a sequence of decimal digits as text.
pub fn digits_to_string(digits: &Vec<u8>) -> (text: String)
    requires
        all_digits(digits@),
    ensures
        text@ == digits_text(digits@),
{
    let mut text = String::new();
    let mut i: usize = 0;
    while i < digits.len()
        invariant
            i <= digits.len(),
            all_digits(digits@),
            text@ == digits_text(digits@.take(i as int)),
        decreases digits.len() - i,
    {
        let c = char_of_digit(digits[i]);
        text.push(c);
        proof {
            assert(digits@.take(i + 1) =~= digits@.take(i as int).push(digits@[i as int]));
            assert(digits_text(digits@.take(i + 1)) =~= digits_text(digits@.take(i as int)).push(c));
        }
        i += 1;
    }
    proof {
        assert(digits@.take(i as int) =~= digits@);
    }
    text
}

} // verus!
