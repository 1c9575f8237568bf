//! Card verification codes.

use vstd::prelude::*;
use crate::network::{cvv_length, cvv_length_of};
use crate::random::random_digits;
use crate::text::{digits_to_string, is_digit_char};
use crate::text::lemma_text_digits_of_digits_text;

verus! {

/// Whether `text` can be the verification code of a card for the pattern
/// `bin`: decimal digits only, four of them for the fifteen-digit networks
/// and three for all others.
pub open spec fn is_cvv_for(bin: Seq<char>, text: Seq<char>) -> bool {
    &&& text.len() == cvv_length_of(bin)
    &&& forall|i: int| 0 <= i < text.len() ==> is_digit_char(#[trigger] text[i])
}

/// A verification code for the pattern `bin`, each digit drawn at random.
pub fn generate_ccv(bin: &str) -> (ccv: String)
    ensures
        is_cvv_for(bin@, ccv@),
{
    let length: usize = cvv_length(bin);
    let draws: Vec<u8> = random_digits(length);
    proof {
        lemma_text_digits_of_digits_text(draws@);
    }
    digits_to_string(&draws)
}

} // verus!
