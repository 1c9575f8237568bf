use cardgen::luhn::check_digit;
use cardgen::text::{char_of_digit, digit_of_char, digits_to_string};

fn digits(text: &str) -> Vec<u8> {
    text.bytes().map(|b| b - b'0').collect()
}

#[test]
fn check_digit_of_empty_prefix_is_zero() {
    assert_eq!(check_digit(&Vec::new()), 0);
}

#[test]
fn check_digit_of_classic_example() {
    assert_eq!(check_digit(&digits("7992739871")), 3);
}

#[test]
fn check_digit_of_well_known_test_numbers() {
    assert_eq!(check_digit(&digits("424242424242424")), 2);
    assert_eq!(check_digit(&digits("411111111111111")), 1);
    assert_eq!(check_digit(&digits("37828224631000")), 5);
    assert_eq!(check_digit(&digits("3056930902590")), 4);
}

#[test]
fn check_digit_is_zero_when_sum_is_multiple_of_ten() {
    assert_eq!(check_digit(&digits("0000000000")), 0);
    // 5 doubled is 10, less 9 is 1; 9 plain: the sum is 10.
    assert_eq!(check_digit(&digits("95")), 0);
}

#[test]
fn check_digit_doubles_from_the_right() {
    // One digit: it is doubled. 4 -> 8, so the check digit is 2.
    assert_eq!(check_digit(&digits("4")), 2);
    // Two digits: only the right one is doubled. 4 + 0 = 4.
    assert_eq!(check_digit(&digits("40")), 6);
    // 6 doubled is 12, less 9 is 3.
    assert_eq!(check_digit(&digits("6")), 7);
    // 9 doubled is 18, less 9 is 9.
    assert_eq!(check_digit(&digits("9")), 1);
}

#[test]
fn char_of_digit_covers_all_ten() {
    let expected = ['0', '1', '2', '3', '4', '5', '6', '7', '8', '9'];
    for d in 0u8..10 {
        assert_eq!(char_of_digit(d), expected[d as usize]);
    }
}

#[test]
fn digit_of_char_reads_digits() {
    assert_eq!(digit_of_char('0'), 0);
    assert_eq!(digit_of_char('7'), 7);
    assert_eq!(digit_of_char('9'), 9);
}

#[test]
fn digit_of_char_counts_other_characters_as_zero() {
    assert_eq!(digit_of_char('a'), 0);
    assert_eq!(digit_of_char('/'), 0);
    assert_eq!(digit_of_char(':'), 0);
    assert_eq!(digit_of_char(' '), 0);
    assert_eq!(digit_of_char('é'), 0);
    assert_eq!(digit_of_char('٣'), 0);
}

#[test]
fn digits_to_string_prints_each_digit() {
    assert_eq!(digits_to_string(&vec![0, 1, 2, 3, 4, 5, 6, 7, 8, 9]), "0123456789");
    assert_eq!(digits_to_string(&Vec::new()), "");
}
