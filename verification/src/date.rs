//! Calendar dates, and the name of the file that keeps the state of a day.

use crate::scan::append;
use crate::text::{chars_of, text_of};
use chrono::NaiveDate;
use vstd::prelude::*;

verus! {

/// Whether `year` is a leap year of the proleptic Gregorian calendar.
pub open spec fn is_leap_year(year: int) -> bool {
    year % 4 == 0 && (year % 100 != 0 || year % 400 == 0)
}

/// The number of days of a month.
pub open spec fn days_in_month(year: int, month: int) -> int {
    if month == 2 {
        if is_leap_year(year) {
            29
        } else {
            28
        }
    } else if month == 4 || month == 6 || month == 9 || month == 11 {
        30
    } else {
        31
    }
}

/// Whether the day exists in the proleptic Gregorian calendar, in a year
/// that a date can hold.
pub open spec fn is_calendar_date(year: int, month: int, day: int) -> bool {
    -262143 <= year <= 262142 && 1 <= month <= 12 && 1 <= day <= days_in_month(year, month)
}

/// The digit for a number below ten.
pub open spec fn digit(n: int) -> char {
    (0x30 + n) as char
}

/// A number below a hundred in two digits.
pub open spec fn two_digits(n: int) -> Seq<char> {
    seq![digit(n / 10), digit(n % 10)]
}

/// A number below ten thousand in four digits.
pub open spec fn four_digits(n: int) -> Seq<char> {
    seq![digit(n / 1000), digit(n / 100 % 10), digit(n / 10 % 10), digit(n % 10)]
}

/// What `NaiveDate::format` yields for a date under the pattern `%Y-%m-%d`.
pub uninterp spec fn formatted_date(year: i32, month: u32, day: u32) -> Seq<char>;

/// A date in the form year, month, day, parted by hyphens: spelled out for
/// the years of four digits, and as chrono formats it for the others, which
/// carry a sign.
pub open spec fn spec_date_text(year: i32, month: u32, day: u32) -> Seq<char> {
    if 0 <= year <= 9999 {
        four_digits(year as int) + seq!['-'] + two_digits(month as int) + seq!['-'] + two_digits(
            day as int,
        )
    } else {
        formatted_date(year, month, day)
    }
}

/// The name of the file that keeps the state of a day.
pub open spec fn spec_save_file(date: Date) -> Seq<char> {
    "data-"@ + spec_date_text(date.spec_year(), date.spec_month(), date.spec_day()) + ".json"@
}

/// Asks chrono's `NaiveDate::from_ymd_opt` whether it has a date for the
/// year, month and day. The contract claims that it has one exactly for the
/// days of the proleptic Gregorian calendar in the years from -262143 to
/// 262142.
#[verifier::external_body]
fn exists_in_calendar(year: i32, month: u32, day: u32) -> (exists: bool)
    ensures
        exists == is_calendar_date(year as int, month as int, day as int),
{
    NaiveDate::from_ymd_opt(year, month, day).is_some()
}

/// Calls chrono's `NaiveDate::format` with the pattern `%Y-%m-%d` on the
/// date of the year, month and day. The contract names the result, and
/// claims of a year from 0 to 9999 that the text is the year in four digits,
/// the month in two and the day in two, each padded with zeros, with a
/// hyphen between them.
#[verifier::external_body]
fn format_date(year: i32, month: u32, day: u32) -> (text: String)
    requires
        is_calendar_date(year as int, month as int, day as int),
    ensures
        text@ == formatted_date(year, month, day),
        0 <= year <= 9999 ==> text@ == four_digits(year as int) + seq!['-'] + two_digits(
            month as int,
        ) + seq!['-'] + two_digits(day as int),
{
    NaiveDate::from_ymd_opt(year, month, day).unwrap().format("%Y-%m-%d").to_string()
}

/// A day of the calendar.
#[derive(Clone, Copy, Debug, PartialEq, Eq, Structural)]
pub struct Date {
    year: i32,
    month: u32,
    day: u32,
}

impl Date {
    #[verifier::type_invariant]
    spec fn in_calendar(self) -> bool {
        is_calendar_date(self.year as int, self.month as int, self.day as int)
    }

    /// The year of the date.
    pub closed spec fn spec_year(self) -> i32 {
        self.year
    }

    /// The month of the date, from 1 to 12.
    pub closed spec fn spec_month(self) -> u32 {
        self.month
    }

    /// The day of the month, from 1.
    pub closed spec fn spec_day(self) -> u32 {
        self.day
    }

    /// The date of the year, month and day, if the calendar has that day.
    pub fn new(year: i32, month: u32, day: u32) -> (date: Option<Date>)
        ensures
            date is Some <==> is_calendar_date(year as int, month as int, day as int),
            date matches Some(d) ==> d.spec_year() == year && d.spec_month() == month
                && d.spec_day() == day,
    {
        if exists_in_calendar(year, month, day) {
            Some(Date { year, month, day })
        } else {
            None
        }
    }

    /// The year of the date.
    pub fn year(&self) -> (year: i32)
        ensures
            year == self.spec_year(),
    {
        self.year
    }

    /// The month of the date.
    pub fn month(&self) -> (month: u32)
        ensures
            month == self.spec_month(),
            1 <= month <= 12,
    {
        proof {
            use_type_invariant(self);
        }
        self.month
    }

    /// The day of the month.
    pub fn day(&self) -> (day: u32)
        ensures
            day == self.spec_day(),
            1 <= day <= 31,
    {
        proof {
            use_type_invariant(self);
        }
        self.day
    }

    /// The date as year, month and day, parted by hyphens.
    pub fn text(&self) -> (text: String)
        ensures
            text@ == spec_date_text(self.spec_year(), self.spec_month(), self.spec_day()),
    {
        proof {
            use_type_invariant(self);
        }
        format_date(self.year, self.month, self.day)
    }
}

/// A date is what its year, month and day say.
pub proof fn lemma_date_by_parts(a: Date, b: Date)
    requires
        a.spec_year() == b.spec_year(),
        a.spec_month() == b.spec_month(),
        a.spec_day() == b.spec_day(),
    ensures
        a == b,
{
}

/// The name of the file that keeps the state of the day `date`.
pub fn save_file(date: Date) -> (name: String)
    ensures
        name@ == spec_save_file(date),
{
    let mut out = chars_of("data-");
    append(&mut out, &chars_of(date.text().as_str()));
    append(&mut out, &chars_of(".json"));
    text_of(&out)
}

} // verus!
