//! The Luhn checksum over sequences of decimal digits.

use vstd::prelude::*;
use crate::text::all_digits;

verus! {

/// What a digit in a doubled position adds to the checksum: twice the digit,
/// less nine where that exceeds nine.
pub open spec fn doubled(d: u8) -> nat {
    if 2 * d > 9 {
        (2 * d - 9) as nat
    } else {
        (2 * d) as nat
    }
}

/// The weighted digit sum of the Luhn scheme. Counting from the right,
/// positions alternate between plain and doubled; `double_last` says which
/// of the two the rightmost digit is.
pub open spec fn luhn_sum(digits: Seq<u8>, double_last: bool) -> nat
    decreases digits.len(),
{
    if digits.len() == 0 {
        0
    } else {
        let rest = luhn_sum(digits.drop_last(), !double_last);
        if double_last {
            rest + doubled(digits.last())
        } else {
            rest + digits.last() as nat
        }
    }
}

/// A full number passes the Luhn test when its weighted sum, with the last
/// digit plain and the one before it doubled, is a multiple of ten.
pub open spec fn luhn_valid(digits: Seq<u8>) -> bool {
    luhn_sum(digits, false) % 10 == 0
}

/// The digit that completes `prefix` to a number that passes the Luhn test.
pub open spec fn check_digit_of(prefix: Seq<u8>) -> u8 {
    ((10 - luhn_sum(prefix, true) % 10) % 10) as u8
}

/// Appending its check digit to any digit sequence gives a number that
/// passes the Luhn test.
pub proof fn lemma_check_digit_completes(prefix: Seq<u8>)
    ensures
        check_digit_of(prefix) < 10,
        luhn_valid(prefix.push(check_digit_of(prefix))),
{
    let full = prefix.push(check_digit_of(prefix));
    assert(full.drop_last() =~= prefix);
    assert(full.last() == check_digit_of(prefix));
}

/// Computes the Luhn check digit for a prefix of decimal digits.
pub fn check_digit(prefix: &Vec<u8>) -> (d: u8)
    requires
        all_digits(prefix@),
    ensures
        d == check_digit_of(prefix@),
        d < 10,
        luhn_valid(prefix@.push(d)),
{
    let n: usize = prefix.len();
    // The rightmost digit of the prefix is doubled, so the digit at index 0
    // is doubled exactly when the prefix has odd length.
    let mut double_here: bool = n % 2 == 1;
    let mut acc: u8 = 0;
    let mut i: usize = 0;
    while i < n
        invariant
            n == prefix.len(),
            i <= n,
            all_digits(prefix@),
            acc < 10,
            double_here == ((n - i) % 2 == 1),
            acc as nat == luhn_sum(prefix@.take(i as int), !double_here) % 10,
        decreases n - i,
    {
        let digit: u8 = prefix[i];
        let term: u8 = if double_here {
            if 2 * digit > 9 {
                2 * digit - 9
            } else {
                2 * digit
            }
        } else {
            digit
        };
        proof {
            let upto = prefix@.take(i + 1);
            assert(upto.drop_last() =~= prefix@.take(i as int));
            assert(upto.last() == digit);
            assert(luhn_sum(upto, double_here) == luhn_sum(prefix@.take(i as int), !double_here)
                + term as nat);
        }
        acc = (acc + term) % 10;
        double_here = !double_here;
        i += 1;
    }
    proof {
        assert(prefix@.take(n as int) =~= prefix@);
        lemma_check_digit_completes(prefix@);
    }
    (10 - acc) % 10
}

} // verus!
