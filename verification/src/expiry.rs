//! Expiry dates: a month from "01" to "12" and a year from "2026" to "2040".

use vstd::prelude::*;
use crate::random::random_below;

verus! {

/// How many months there are to choose from.
pub const MONTH_COUNT: usize = 12;

/// How many years there are to choose from.
pub const YEAR_COUNT: usize = 15;

/// The months in order, each written with two digits.
pub open spec fn month_text(index: int) -> Seq<char> {
    if index == 0 {
        "01"@
    } else if index == 1 {
        "02"@
    } else if index == 2 {
        "03"@
    } else if index == 3 {
        "04"@
    } else if index == 4 {
        "05"@
    } else if index == 5 {
        "06"@
    } else if index == 6 {
        "07"@
    } else if index == 7 {
        "08"@
    } else if index == 8 {
        "09"@
    } else if index == 9 {
        "10"@
    } else if index == 10 {
        "11"@
    } else {
        "12"@
    }
}

/// The years in order, fifteen of them from 2026 on.
pub open spec fn year_text(index: int) -> Seq<char> {
    if index == 0 {
        "2026"@
    } else if index == 1 {
        "2027"@
    } else if index == 2 {
        "2028"@
    } else if index == 3 {
        "2029"@
    } else if index == 4 {
        "2030"@
    } else if index == 5 {
        "2031"@
    } else if index == 6 {
        "2032"@
    } else if index == 7 {
        "2033"@
    } else if index == 8 {
        "2034"@
    } else if index == 9 {
        "2035"@
    } else if index == 10 {
        "2036"@
    } else if index == 11 {
        "2037"@
    } else if index == 12 {
        "2038"@
    } else if index == 13 {
        "2039"@
    } else {
        "2040"@
    }
}

/// Whether `text` is one of the twelve months "01" to "12".
pub open spec fn is_month(text: Seq<char>) -> bool {
    exists|index: int| 0 <= index < MONTH_COUNT && text == #[trigger] month_text(index)
}

/// Whether `text` is one of the fifteen years "2026" to "2040".
pub open spec fn is_year(text: Seq<char>) -> bool {
    exists|index: int| 0 <= index < YEAR_COUNT && text == #[trigger] year_text(index)
}

/// The month at `index` of the twelve, counted from zero.
pub fn month_at(index: usize) -> (month: String)
    requires
        index < MONTH_COUNT,
    ensures
        month@ == month_text(index as int),
        is_month(month@),
{
    let name: &str = if index == 0 {
        "01"
    } else if index == 1 {
        "02"
    } else if index == 2 {
        "03"
    } else if index == 3 {
        "04"
    } else if index == 4 {
        "05"
    } else if index == 5 {
        "06"
    } else if index == 6 {
        "07"
    } else if index == 7 {
        "08"
    } else if index == 8 {
        "09"
    } else if index == 9 {
        "10"
    } else if index == 10 {
        "11"
    } else {
        "12"
    };
    let month = name.to_owned();
    assert(month@ == month_text(index as int));
    month
}

/// The year at `index` of the fifteen, counted from zero.
pub fn year_at(index: usize) -> (year: String)
    requires
        index < YEAR_COUNT,
    ensures
        year@ == year_text(index as int),
        is_year(year@),
{
    let name: &str = if index == 0 {
        "2026"
    } else if index == 1 {
        "2027"
    } else if index == 2 {
        "2028"
    } else if index == 3 {
        "2029"
    } else if index == 4 {
        "2030"
    } else if index == 5 {
        "2031"
    } else if index == 6 {
        "2032"
    } else if index == 7 {
        "2033"
    } else if index == 8 {
        "2034"
    } else if index == 9 {
        "2035"
    } else if index == 10 {
        "2036"
    } else if index == 11 {
        "2037"
    } else if index == 12 {
        "2038"
    } else if index == 13 {
        "2039"
    } else {
        "2040"
    };
    let year = name.to_owned();
    assert(year@ == year_text(index as int));
    year
}

/// A month drawn at random from "01" to "12".
pub fn generate_month() -> (month: String)
    ensures
        is_month(month@),
{
    let index: usize = random_below(MONTH_COUNT);
    month_at(index)
}

/// A year drawn at random from "2026" to "2040".
pub fn generate_year() -> (year: String)
    ensures
        is_year(year@),
{
    let index: usize = random_below(YEAR_COUNT);
    year_at(index)
}

} // verus!
