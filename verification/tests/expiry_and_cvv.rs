use cardgen::cvv::generate_ccv;
use cardgen::expiry::{generate_month, generate_year, month_at, year_at, MONTH_COUNT, YEAR_COUNT};

const MONTHS: [&str; 12] = ["01", "02", "03", "04", "05", "06", "07", "08", "09", "10", "11", "12"];

const YEARS: [&str; 15] = [
    "2026", "2027", "2028", "2029", "2030", "2031", "2032", "2033", "2034", "2035", "2036", "2037",
    "2038", "2039", "2040",
];

#[test]
fn table_sizes() {
    assert_eq!(MONTH_COUNT, 12);
    assert_eq!(YEAR_COUNT, 15);
}

#[test]
fn month_at_gives_each_month() {
    for i in 0..12 {
        assert_eq!(month_at(i), MONTHS[i]);
    }
}

#[test]
fn year_at_gives_each_year() {
    for i in 0..15 {
        assert_eq!(year_at(i), YEARS[i]);
    }
}

#[test]
fn generated_month_is_one_of_twelve() {
    let mut seen = std::collections::HashSet::new();
    for _ in 0..600 {
        let month = generate_month();
        assert!(MONTHS.contains(&month.as_str()));
        seen.insert(month);
    }
    assert!(seen.len() > 1);
}

#[test]
fn generated_year_is_one_of_fifteen() {
    let mut seen = std::collections::HashSet::new();
    for _ in 0..600 {
        let year = generate_year();
        assert!(YEARS.contains(&year.as_str()));
        seen.insert(year);
    }
    assert!(seen.len() > 1);
}

#[test]
fn generated_ccv_has_three_digits_by_default() {
    for bin in ["411111", "", "3", "30", "36xx", "35", "x"] {
        for _ in 0..50 {
            let ccv = generate_ccv(bin);
            assert_eq!(ccv.len(), 3);
            assert!(ccv.chars().all(|c| c.is_ascii_digit()));
        }
    }
}

#[test]
fn generated_ccv_has_four_digits_for_fifteen_digit_networks() {
    for bin in ["34", "37", "37xxxxxxxxxxxxx", "340000"] {
        for _ in 0..50 {
            let ccv = generate_ccv(bin);
            assert_eq!(ccv.len(), 4);
            assert!(ccv.chars().all(|c| c.is_ascii_digit()));
        }
    }
}
