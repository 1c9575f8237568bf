//! Card numbers: an issuer pattern filled up with drawn digits and closed
//! with its Luhn check digit.

use vstd::prelude::*;
use vstd::string::StrSliceExecFns;
use crate::luhn::{check_digit, check_digit_of, lemma_check_digit_completes, luhn_valid};
use crate::random::random_digit;
use crate::text::{all_digits, digit_char, digit_of_char, digit_value, digits_text};
use crate::text::{digits_to_string, is_digit_char, lemma_text_digits_of_digits_text, text_digits};

verus! {

/// A wildcard stands for any digit: the letter x in either case.
pub open spec fn is_wildcard(c: char) -> bool {
    c == 'x' || c == 'X'
}

/// Whether position `i` of a number is left free by the pattern: the
/// pattern has a wildcard there, or has ended before it.
pub open spec fn is_free(bin: Seq<char>, i: int) -> bool {
    i >= bin.len() || is_wildcard(bin[i])
}

/// The digit at position `i` of a number, before the check digit: the drawn
/// digit where the position is free, else the pattern's character read as a
/// digit (zero where it is none).
pub open spec fn pattern_digit(bin: Seq<char>, draws: Seq<u8>, i: int) -> u8 {
    if is_free(bin, i) {
        draws[i]
    } else {
        digit_value(bin[i])
    }
}

/// The first `length - 1` digits of a number: the pattern, cut off or
/// filled up with drawn digits to that length.
pub open spec fn card_prefix(bin: Seq<char>, length: nat, draws: Seq<u8>) -> Seq<u8> {
    Seq::new((length - 1) as nat, |i: int| pattern_digit(bin, draws, i))
}

/// All `length` digits of a number: the prefix and its check digit.
pub open spec fn card_digits(bin: Seq<char>, length: nat, draws: Seq<u8>) -> Seq<u8> {
    let prefix = card_prefix(bin, length, draws);
    prefix.push(check_digit_of(prefix))
}

/// The number as text.
pub open spec fn card_text(bin: Seq<char>, length: nat, draws: Seq<u8>) -> Seq<char> {
    digits_text(card_digits(bin, length, draws))
}

/// Whether `draws` holds one decimal digit for each position before the
/// check digit of a number of `length` digits.
pub open spec fn draws_fit(length: nat, draws: Seq<u8>) -> bool {
    draws.len() == length - 1 && all_digits(draws)
}

/// Whether `card` is a number of `length` digits for the pattern `bin`,
/// whatever digits were drawn for its free positions.
pub open spec fn is_card_for(bin: Seq<char>, length: nat, card: Seq<char>) -> bool {
    exists|draws: Seq<u8>|
        draws_fit(length, draws) && card == #[trigger] card_text(bin, length, draws)
}

/// Whether `card` shows the pattern's own characters wherever the pattern
/// fixes a position before the check digit: a digit as it stands, any other
/// character as `'0'`.
pub open spec fn keeps_literals(bin: Seq<char>, length: nat, card: Seq<char>) -> bool {
    forall|i: int|
        0 <= i < length - 1 && i < bin.len() && !is_wildcard(#[trigger] bin[i]) ==> card[i]
            == digit_char(digit_value(bin[i])) && (is_digit_char(bin[i]) ==> card[i] == bin[i])
}

/// Whether `card` has `length` characters, all of them decimal digits.
pub open spec fn is_digit_text(length: nat, card: Seq<char>) -> bool {
    card.len() == length && forall|i: int| 0 <= i < card.len() ==> is_digit_char(#[trigger] card[i])
}

/// Every number built from a pattern has the asked length, consists of
/// decimal digits, passes the Luhn test, and begins with the pattern's fixed
/// characters.
pub proof fn lemma_card_text_is_valid(bin: Seq<char>, length: nat, draws: Seq<u8>)
    requires
        length >= 1,
        draws_fit(length, draws),
    ensures
        is_digit_text(length, card_text(bin, length, draws)),
        luhn_valid(text_digits(card_text(bin, length, draws))),
        keeps_literals(bin, length, card_text(bin, length, draws)),
        all_digits(card_digits(bin, length, draws)),
{
    let prefix = card_prefix(bin, length, draws);
    let digits = card_digits(bin, length, draws);
    lemma_check_digit_completes(prefix);
    assert(all_digits(digits)) by {
        assert forall|i: int| 0 <= i < digits.len() implies #[trigger] digits[i] < 10 by {
            if i < length - 1 {
                assert(digits[i] == pattern_digit(bin, draws, i));
            }
        }
    }
    lemma_text_digits_of_digits_text(digits);
    let card = card_text(bin, length, draws);
    assert forall|i: int|
        0 <= i < length - 1 && i < bin.len() && !is_wildcard(#[trigger] bin[i]) implies card[i]
        == digit_char(digit_value(bin[i])) && (is_digit_char(bin[i]) ==> card[i] == bin[i]) by {
        assert(digits[i] == pattern_digit(bin, draws, i));
    }
}

/// Every number for a pattern has the asked length, consists of decimal
/// digits, passes the Luhn test, and begins with the pattern's fixed
/// characters, whatever was drawn for the free positions.
pub proof fn lemma_card_is_valid(bin: Seq<char>, length: nat, card: Seq<char>)
    requires
        length >= 1,
        is_card_for(bin, length, card),
    ensures
        is_digit_text(length, card),
        luhn_valid(text_digits(card)),
        keeps_literals(bin, length, card),
{
    let draws = choose|draws: Seq<u8>|
        draws_fit(length, draws) && card == #[trigger] card_text(bin, length, draws);
    lemma_card_text_is_valid(bin, length, draws);
}

/// Whether `c` is a wildcard.
pub fn is_wildcard_char(c: char) -> (wild: bool)
    ensures
        wild == is_wildcard(c),
{
    c == 'x' || c == 'X'
}

/// The card number of `length` digits for the pattern `bin` in which each
/// free position `i` holds `draws[i]`. The pattern is cut off where it is
/// longer than `length - 1`; the last digit is the Luhn check digit of those
/// before it.
pub fn card_from_draws(bin: &str, length: usize, draws: &Vec<u8>) -> (card: String)
    requires
        length >= 1,
        draws_fit(length as nat, draws@),
    ensures
        card@ == card_text(bin@, length as nat, draws@),
        is_card_for(bin@, length as nat, card@),
        is_digit_text(length as nat, card@),
        luhn_valid(text_digits(card@)),
        keeps_literals(bin@, length as nat, card@),
{
    let pattern_len: usize = bin.unicode_len();
    let mut digits: Vec<u8> = Vec::new();
    let mut i: usize = 0;
    while i < length - 1
        invariant
            length >= 1,
            i <= length - 1,
            digits.len() == i,
            pattern_len == bin@.len(),
            draws_fit(length as nat, draws@),
            all_digits(digits@),
            forall|k: int| 0 <= k < i ==> digits@[k] == pattern_digit(bin@, draws@, k),
        decreases length - 1 - i,
    {
        let mut digit: u8 = draws[i];
        if i < pattern_len {
            let ch = bin.get_char(i);
            if !is_wildcard_char(ch) {
                digit = digit_of_char(ch);
            }
        }
        digits.push(digit);
        i += 1;
    }
    proof {
        assert(digits@ =~= card_prefix(bin@, length as nat, draws@));
    }
    let check: u8 = check_digit(&digits);
    digits.push(check);
    proof {
        assert(digits@ == card_digits(bin@, length as nat, draws@));
        lemma_card_text_is_valid(bin@, length as nat, draws@);
    }
    digits_to_string(&digits)
}

/// A card number of `length` digits for the pattern `bin`. Each wildcard of
/// the pattern, and each position behind the pattern's end, gets a digit
/// drawn at random; the last digit is the Luhn check digit.
pub fn generate_card(bin: &str, length: usize) -> (card: String)
    requires
        length >= 1,
    ensures
        is_card_for(bin@, length as nat, card@),
        is_digit_text(length as nat, card@),
        luhn_valid(text_digits(card@)),
        keeps_literals(bin@, length as nat, card@),
{
    let pattern_len: usize = bin.unicode_len();
    let mut draws: Vec<u8> = Vec::new();
    let mut i: usize = 0;
    while i < length - 1
        invariant
            length >= 1,
            i <= length - 1,
            draws.len() == i,
            pattern_len == bin@.len(),
            all_digits(draws@),
        decreases length - 1 - i,
    {
        // A digit is drawn only where the pattern leaves the position free;
        // a fixed position never reads its entry.
        let fixed: bool = i < pattern_len && !is_wildcard_char(bin.get_char(i));
        let digit: u8 = if fixed {
            0
        } else {
            random_digit()
        };
        draws.push(digit);
        i += 1;
    }
    card_from_draws(bin, length, &draws)
}

} // verus!
