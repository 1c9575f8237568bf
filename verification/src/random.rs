//! The source of randomness: the thread-local generator of the `rand` crate.

use vstd::prelude::*;
use crate::text::all_digits;

verus! {

/// Calls `rand::random_range` on the half-open range from zero to `bound`,
/// which draws from the thread-local generator. The range is not empty, as
/// that function demands, and the value it returns lies inside the range.
/// Nothing more is claimed: two calls may return different values.
#[verifier::external_body]
pub(crate) fn random_below(bound: usize) -> (value: usize)
    requires
        bound > 0,
    ensures
        value < bound,
{
    rand::random_range(0..bound)
}

/// Draws one decimal digit.
pub(crate) fn random_digit() -> (digit: u8)
    ensures
        digit < 10,
{
    let value: usize = random_below(10);
    value as u8
}

/// Draws `count` decimal digits.
pub(crate) fn random_digits(count: usize) -> (digits: Vec<u8>)
    ensures
        digits.len() == count,
        all_digits(digits@),
{
    let mut digits: Vec<u8> = Vec::new();
    while digits.len() < count
        invariant
            digits.len() <= count,
            all_digits(digits@),
        decreases count - digits.len(),
    {
        let digit: u8 = random_digit();
        digits.push(digit);
    }
    digits
}

} // verus!
