//! Calendar dates and timestamps as plain values, and the one place where
//! the crate asks `chrono`: for the text of a date. The clock is read by
//! whoever calls the library; every rule takes the time as an argument.

use crate::text::date_text;
use vstd::prelude::*;

verus! {

/// The first year that a date can lie in.
pub const MIN_YEAR: i32 = -262143;

/// The last year that a date can lie in.
pub const MAX_YEAR: i32 = 262142;

/// Whether a year of the proleptic Gregorian calendar has a 29th of February.
pub open spec fn is_leap_year(year: int) -> bool {
    year % 4 == 0 && (year % 100 != 0 || year % 400 == 0)
}

/// The number of days of a month.
pub open spec fn days_in_month(year: int, month: int) -> int {
    if month == 2 {
        if is_leap_year(year) {
            29
        } else {
            28
        }
    } else if month == 4 || month == 6 || month == 9 || month == 11 {
        30
    } else {
        31
    }
}

/// Whether year, month and day name a day of the calendar.
pub open spec fn valid_ymd(year: int, month: int, day: int) -> bool {
    &&& MIN_YEAR <= year <= MAX_YEAR
    &&& 1 <= month <= 12
    &&& 1 <= day <= days_in_month(year, month)
}

/// A day of the proleptic Gregorian calendar.
///
/// Only days that exist can be built, so every `Date` that code holds is one.
#[derive(Debug, Clone, Copy, PartialEq, Eq, Structural, Hash)]
pub struct Date {
    year: i32,
    month: u32,
    day: u32,
}

/// A local date with the time of day: seconds since midnight and the
/// nanoseconds of the running second.
#[derive(Debug, Clone, Copy, PartialEq, Eq, Structural, Hash)]
pub struct DateTime {
    pub date: Date,
    pub secs: u32,
    pub nano: u32,
}

impl Date {
    #[verifier::type_invariant]
    spec fn exists_in_calendar(self) -> bool {
        valid_ymd(self.year as int, self.month as int, self.day as int)
    }

    /// Year, month and day of the date.
    pub closed spec fn ymd(self) -> (int, int, int) {
        (self.year as int, self.month as int, self.day as int)
    }

    /// Whether the date names a day of the calendar.
    pub open spec fn is_valid(self) -> bool {
        valid_ymd(self.ymd().0, self.ymd().1, self.ymd().2)
    }

    /// The text of the date.
    pub open spec fn text(self) -> Seq<char> {
        date_text(self.ymd().0, self.ymd().1, self.ymd().2)
    }

    /// The date of the given year, month and day, if there is such a day.
    pub fn from_ymd_opt(year: i32, month: u32, day: u32) -> (date: Option<Date>)
        ensures
            date is Some <==> valid_ymd(year as int, month as int, day as int),
            date matches Some(d) ==> d.ymd() == (year as int, month as int, day as int)
                && d.is_valid(),
    {
        if year < MIN_YEAR || year > MAX_YEAR || month < 1 || month > 12 || day < 1 {
            return None;
        }
        let shifted: u32 = (year + 262400) as u32;
        assert(shifted as int % 4 == year as int % 4);
        assert(shifted as int % 100 == year as int % 100);
        assert(shifted as int % 400 == year as int % 400);
        let leap = shifted % 4 == 0 && (shifted % 100 != 0 || shifted % 400 == 0);
        let days: u32 = if month == 2 {
            if leap {
                29
            } else {
                28
            }
        } else if month == 4 || month == 6 || month == 9 || month == 11 {
            30
        } else {
            31
        };
        if day > days {
            return None;
        }
        Some(Date { year, month, day })
    }

    pub fn year(&self) -> (year: i32)
        ensures
            year == self.ymd().0,
    {
        self.year
    }

    pub fn month(&self) -> (month: u32)
        ensures
            month == self.ymd().1,
            1 <= month <= 12,
    {
        proof {
            use_type_invariant(self);
        }
        self.month
    }

    pub fn day(&self) -> (day: u32)
        ensures
            day == self.ymd().2,
            1 <= day <= 31,
    {
        proof {
            use_type_invariant(self);
        }
        self.day
    }

    /// The text of the date, as `chrono` writes it.
    pub fn to_text(&self) -> (text: String)
        ensures
            text@ == self.text(),
            self.is_valid(),
    {
        proof {
            use_type_invariant(self);
        }
        match chrono_date_text(self.year, self.month, self.day) {
            Some(text) => text,
            None => String::new(),
        }
    }
}

/// Different days have different texts.
pub proof fn lemma_date_text_differs(a: Date, b: Date)
    requires
        a.is_valid(),
        b.is_valid(),
        a.text() == b.text(),
    ensures
        a == b,
{
    crate::text::lemma_date_text_injective(
        a.ymd().0,
        a.ymd().1,
        a.ymd().2,
        b.ymd().0,
        b.ymd().1,
        b.ymd().2,
    );
}

/// `chrono::NaiveDate::from_ymd_opt` and the `Display` of the date it gives.
///
/// Claimed of `chrono`: a date is built exactly for the days of the
/// proleptic Gregorian calendar between the years -262143 and 262142, and
/// its text is the year (four digits from 0 to 9999, else a sign and at
/// least four digits), the month and the day in two digits each, joined
/// by hyphens.
#[verifier::external_body]
fn chrono_date_text(year: i32, month: u32, day: u32) -> (text: Option<String>)
    ensures
        text is Some <==> valid_ymd(year as int, month as int, day as int),
        text matches Some(t) ==> t@ == date_text(year as int, month as int, day as int),
{
    chrono::NaiveDate::from_ymd_opt(year, month, day).map(|date| date.to_string())
}

} // verus!
