//! Calendar dates and clock times, read and written by `chrono`.
//!
//! A date is held as its day number: 1 is January 1 of year 1 in the
//! proleptic Gregorian calendar, as `chrono::Datelike::num_days_from_ce`
//! counts.

use vstd::prelude::*;

verus! {

/// What `chrono::NaiveDate::parse_from_str(text, "%Y-%m-%d")` gives, as a
/// day number: `None` where chrono refuses the text.
pub uninterp spec fn spec_parse_day(text: Seq<char>) -> Option<i32>;

/// What `chrono` writes for the date with day number `day` in the format
/// `"%Y-%m-%d"`: `None` where chrono has no date with that number.
pub uninterp spec fn spec_format_day(day: i32) -> Option<Seq<char>>;

/// What `chrono` writes for the given day number, hour and minute in the
/// format `"%A · %H:%M"`: `None` where chrono has no such date or time.
pub uninterp spec fn spec_clock_label(day: i32, hour: u32, minute: u32) -> Option<Seq<char>>;

/// The two-digit, zero-padded form of `n < 100`.
pub open spec fn two_digits(n: nat) -> Seq<char> {
    seq![crate::text::digit_char(n / 10), crate::text::digit_char(n % 10)]
}

/// Reads a `YYYY-MM-DD` date with
/// `chrono::NaiveDate::parse_from_str(text, "%Y-%m-%d")` and returns its
/// day number (`Datelike::num_days_from_ce`). The contract only names the
/// result: which texts chrono accepts is not restated here.
#[verifier::external_body]
pub fn parse_day(text: &str) -> (r: Option<i32>)
    ensures
        r == spec_parse_day(text@),
{
    match chrono::NaiveDate::parse_from_str(text, "%Y-%m-%d") {
        Ok(d) => Some(chrono::Datelike::num_days_from_ce(&d)),
        Err(_) => None,
    }
}

/// Writes the date with day number `day` as `YYYY-MM-DD`, by
/// `chrono::NaiveDate::from_num_days_from_ce_opt` and `format("%Y-%m-%d")`.
/// Beyond naming the result, the contract states that chrono reads back the
/// date it wrote: `%Y` is written with four digits for years 0 to 9999 and
/// with a sign otherwise, and `parse_from_str` reads both forms (`%m` and
/// `%d` are two digits either way). What the text looks like is not
/// restated.
#[verifier::external_body]
pub fn format_day(day: i32) -> (r: Option<String>)
    ensures
        match r {
            Some(t) => spec_format_day(day) == Some(t@),
            None => spec_format_day(day) is None,
        },
        r matches Some(t) ==> spec_parse_day(t@) == Some(day),
{
    match chrono::NaiveDate::from_num_days_from_ce_opt(day) {
        Some(d) => Some(d.format("%Y-%m-%d").to_string()),
        None => None,
    }
}

/// Writes the weekday and time of day, as in `Friday · 08:14`, by
/// `chrono::NaiveDate::from_num_days_from_ce_opt`, `and_hms_opt` and
/// `format("%A · %H:%M")`. Beyond naming the result, the contract states
/// what chrono documents: there is no label for an hour past 23 or a minute
/// past 59, and a label ends with the hour and minute, each zero-padded to
/// two digits. The weekday's name is not restated.
#[verifier::external_body]
pub fn clock_label(day: i32, hour: u32, minute: u32) -> (r: Option<String>)
    ensures
        match r {
            Some(t) => spec_clock_label(day, hour, minute) == Some(t@),
            None => spec_clock_label(day, hour, minute) is None,
        },
        hour >= 24 || minute >= 60 ==> r is None,
        r matches Some(t) ==> t@.len() >= 5 && t@.subrange(t@.len() - 5, t@.len() as int)
            == two_digits(hour as nat) + seq![':'] + two_digits(minute as nat),
{
    match chrono::NaiveDate::from_num_days_from_ce_opt(day) {
        Some(d) => match d.and_hms_opt(hour, minute, 0) {
            Some(t) => Some(t.format("%A · %H:%M").to_string()),
            None => None,
        },
        None => None,
    }
}

} // verus!
