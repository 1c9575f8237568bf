use cardgen::card::{card_from_draws, generate_card, is_wildcard_char};

fn luhn_ok(card: &str) -> bool {
    let mut sum: u32 = 0;
    for (k, ch) in card.chars().rev().enumerate() {
        let mut d = ch.to_digit(10).expect("a digit");
        if k % 2 == 1 {
            d *= 2;
            if d > 9 {
                d -= 9;
            }
        }
        sum += d;
    }
    sum % 10 == 0
}

#[test]
fn wildcard_is_x_in_either_case() {
    assert!(is_wildcard_char('x'));
    assert!(is_wildcard_char('X'));
    assert!(!is_wildcard_char('0'));
    assert!(!is_wildcard_char('y'));
    assert!(!is_wildcard_char('*'));
}

#[test]
fn wildcards_take_the_drawn_digits() {
    let draws: Vec<u8> = vec![9, 9, 9, 9, 9, 9, 4, 2, 4, 2, 4, 2, 4, 2, 4];
    let card = card_from_draws("424242xxxxxxxxxx", 16, &draws);
    assert_eq!(card, "4242424242424242");
    assert!(luhn_ok(&card));
    assert!(!luhn_ok("4242424242424241"));
}

#[test]
fn upper_case_wildcards_take_the_drawn_digits() {
    let draws: Vec<u8> = vec![0, 0, 1, 1, 1, 1, 1, 1, 1, 1, 1, 1, 1, 1, 1];
    let card = card_from_draws("41XxXx", 16, &draws);
    assert_eq!(card, "4111111111111111");
}

#[test]
fn short_pattern_is_padded_with_drawn_digits() {
    let draws: Vec<u8> = vec![7, 7, 8, 2, 8, 2, 2, 4, 6, 3, 1, 0, 0, 0];
    let card = card_from_draws("37", 15, &draws);
    assert_eq!(card, "378282246310005");
}

#[test]
fn long_pattern_is_cut_before_the_check_digit() {
    let draws: Vec<u8> = vec![0; 15];
    let card = card_from_draws("12345678901234567890", 16, &draws);
    assert_eq!(card, "1234567890123452");
}

#[test]
fn pattern_of_exactly_full_length_loses_its_last_character() {
    let draws: Vec<u8> = vec![0; 15];
    let card = card_from_draws("4111111111111119", 16, &draws);
    assert_eq!(card, "4111111111111111");
}

#[test]
fn other_characters_count_as_zero() {
    let draws: Vec<u8> = vec![5, 5, 5];
    let card = card_from_draws("4a-", 4, &draws);
    // Prefix 4 0 0: the rightmost 0 and the 4 are doubled, 8 in all.
    assert_eq!(card, "4002");
}

#[test]
fn empty_pattern_is_all_drawn_digits() {
    let draws: Vec<u8> = vec![7, 9, 9, 2, 7, 3, 9, 8, 7, 1];
    let card = card_from_draws("", 11, &draws);
    assert_eq!(card, "79927398713");
}

#[test]
fn length_one_is_the_check_digit_alone() {
    assert_eq!(card_from_draws("4242", 1, &Vec::new()), "0");
    assert_eq!(generate_card("4242", 1), "0");
}

#[test]
fn generated_cards_pass_the_luhn_test() {
    for bin in ["424242xxxxxxxxxx", "411111", "37xxxxxxxxxxxxx", "30", "", "x", "5x5x5x", "60110000000000000000"] {
        for length in [14usize, 15, 16] {
            for _ in 0..50 {
                let card = generate_card(bin, length);
                assert_eq!(card.chars().count(), length);
                assert!(card.chars().all(|c| c.is_ascii_digit()));
                assert!(luhn_ok(&card));
            }
        }
    }
}

#[test]
fn generated_cards_keep_the_fixed_characters() {
    for _ in 0..50 {
        let card = generate_card("424242xxxxxxxxxx", 16);
        assert!(card.starts_with("424242"));
        let card = generate_card("5x5X5", 16);
        let chars: Vec<char> = card.chars().collect();
        assert_eq!(chars[0], '5');
        assert_eq!(chars[2], '5');
        assert_eq!(chars[4], '5');
        let card = generate_card("30569309025904999", 14);
        assert_eq!(card, "30569309025904");
    }
}

#[test]
fn fully_fixed_pattern_gives_one_card() {
    for _ in 0..20 {
        assert_eq!(generate_card("424242424242424", 16), "4242424242424242");
        assert_eq!(generate_card("37828224631000", 15), "378282246310005");
    }
}

#[test]
fn wildcards_are_replaced_by_varying_digits() {
    let mut seen = std::collections::HashSet::new();
    for _ in 0..200 {
        let card = generate_card("4xxxxxxxxxxxxxxx", 16);
        assert!(card.starts_with('4'));
        seen.insert(card);
    }
    assert!(seen.len() > 1);
}
