//! The age check of new members: a birthday `MM/DD/YYYY`, and whether they are
//! eighteen.
use vstd::prelude::*;

use crate::patterns::{birthday_captures, find_birthday};
use crate::text::{parse_i32, parse_signed, parse_u64, parse_unsigned};

verus! {

/// Whether a year of the proleptic Gregorian calendar is a leap year.
pub open spec fn leap_year(y: int) -> bool {
    y % 4 == 0 && (y % 100 != 0 || y % 400 == 0)
}

/// The days of a month.
pub open spec fn days_in_month(y: int, m: int) -> int {
    if m == 2 {
        if leap_year(y) {
            29
        } else {
            28
        }
    } else if m == 4 || m == 6 || m == 9 || m == 11 {
        30
    } else {
        31
    }
}

/// Whether a year, month and day form a date that `chrono::NaiveDate` holds
/// (`NaiveDate::from_ymd_opt`).
pub open spec fn valid_date(y: int, m: int, d: int) -> bool {
    -262143 <= y <= 262142 && 1 <= m <= 12 && 1 <= d <= days_in_month(y, m)
}

/// Full years from a birthday to a date, when the birthday is not later
/// (`NaiveDate::years_since`).
pub open spec fn years_between(today: (int, int, int), birth: (int, int, int)) -> Option<int> {
    let years = today.0 - birth.0 - (if today.1 * 32 + today.2 < birth.1 * 32 + birth.2 {
        1int
    } else {
        0int
    });
    if years >= 0 {
        Some(years)
    } else {
        None
    }
}

/// Whether date `a` (year, month, day) is on or before date `b`: earlier year, or
/// the same year and an earlier month, or the same month and a day not later.
pub open spec fn on_or_before(a: (int, int, int), b: (int, int, int)) -> bool {
    a.0 < b.0 || (a.0 == b.0 && (a.1 < b.1 || (a.1 == b.1 && a.2 <= b.2)))
}

/// The age is the number of full years: the last anniversary of the birthday on or
/// before today is `age` years after it, and the next one is after today. There is
/// no age when the birthday is after today. So a later month of the year never
/// lowers the age, whatever the days, and one is an adult exactly from the
/// eighteenth birthday on.
pub proof fn law_age_is_full_years(today: (int, int, int), birth: (int, int, int))
    requires
        1 <= today.1 <= 12,
        1 <= today.2 <= 31,
        1 <= birth.1 <= 12,
        1 <= birth.2 <= 31,
    ensures
        years_between(today, birth) is None <==> !on_or_before(birth, today),
        years_between(today, birth) matches Some(n) ==> n >= 0 && on_or_before(
            (birth.0 + n, birth.1, birth.2),
            today,
        ) && !on_or_before((birth.0 + n + 1, birth.1, birth.2), today),
        years_between(today, birth) matches Some(n) ==> (n >= 18 <==> on_or_before(
            (birth.0 + 18, birth.1, birth.2),
            today,
        )),
{
}

/// The outcome of an age check.
#[derive(Debug, Clone, Copy, PartialEq, Eq, Structural)]
pub enum AgeCheck {
    /// The birthday is no date, or is later than today: ask again.
    Invalid,
    /// Younger than eighteen.
    Underage,
    /// Eighteen or older.
    Adult,
}

/// The answer to a birthday that is not understood.
pub const INVALID_BIRTHDAY: &'static str = "Invalid birthday format. Try again. Example: 01/01/1995";

/// The outcome of the age check of `text` on `today` (year, month, day): `None` when
/// the text has the shape of a birthday but its digits are no ASCII number.
pub open spec fn age_check(text: Seq<char>, today: (int, int, int)) -> Option<AgeCheck> {
    match birthday_captures(text) {
        None => Some(AgeCheck::Invalid),
        Some((m, d, y)) => match (
            parse_unsigned(m, u32::MAX as int),
            parse_unsigned(d, u32::MAX as int),
            parse_signed(y, i32::MIN as int, i32::MAX as int),
        ) {
            (Some(m), Some(d), Some(y)) => if !valid_date(y, m, d) {
                Some(AgeCheck::Invalid)
            } else {
                match years_between(today, (y, m, d)) {
                    None => Some(AgeCheck::Invalid),
                    Some(age) => if age < 18 {
                        Some(AgeCheck::Underage)
                    } else {
                        Some(AgeCheck::Adult)
                    },
                }
            },
            _ => None,
        },
    }
}

fn read_u32(s: &str) -> (r: Option<u32>)
    ensures
        match r {
            Some(v) => parse_unsigned(s@, u32::MAX as int) == Some(v as int),
            None => parse_unsigned(s@, u32::MAX as int) is None,
        },
{
    match parse_u64(s) {
        Some(v) => if v <= u32::MAX as u64 {
            Some(v as u32)
        } else {
            None
        },
        None => None,
    }
}

fn is_valid_date(y: i32, m: u32, d: u32) -> (b: bool)
    ensures
        b == valid_date(y as int, m as int, d as int),
{
    if y < -262143 || y > 262142 || m < 1 || m > 12 || d < 1 {
        return false;
    }
    let leap = y % 4 == 0 && (y % 100 != 0 || y % 400 == 0);
    assert(leap == leap_year(y as int)) by {
        assert((y % 4 == 0) == ((y as int) % 4 == 0));
    }
    let days: u32 = if m == 2 {
        if leap {
            29
        } else {
            28
        }
    } else if m == 4 || m == 6 || m == 9 || m == 11 {
        30
    } else {
        31
    };
    d <= days
}

/// Checks a birthday given as `MM/DD/YYYY` on the date `today` (see [`age_check`]).
pub fn check_birthday(text: &str, today_year: i32, today_month: u32, today_day: u32) -> (r: Option<AgeCheck>)
    requires
        valid_date(today_year as int, today_month as int, today_day as int),
    ensures
        r == age_check(text@, (today_year as int, today_month as int, today_day as int)),
{
    let (m, d, y) = match find_birthday(text) {
        None => {
            return Some(AgeCheck::Invalid);
        },
        Some(c) => c,
    };
    let month = read_u32(m.as_str());
    let day = read_u32(d.as_str());
    let year = parse_i32(y.as_str());
    match (month, day, year) {
        (Some(month), Some(day), Some(year)) => {
            if !is_valid_date(year, month, day) {
                return Some(AgeCheck::Invalid);
            }
            let mut years: i64 = today_year as i64 - year as i64;
            if today_month * 32 + today_day < month * 32 + day {
                years = years - 1;
            }
            if years < 0 {
                Some(AgeCheck::Invalid)
            } else if years < 18 {
                Some(AgeCheck::Underage)
            } else {
                Some(AgeCheck::Adult)
            }
        },
        _ => None,
    }
}

/// The form in which a new member enters their birthday.
pub struct AgeModal {
    /// `MM/DD/YYYY`
    pub birthday: String,
}

impl AgeModal {
    /// The age check of the entered birthday on `today` (see [`age_check`]).
    pub fn age_check(&self, today_year: i32, today_month: u32, today_day: u32) -> (r: Option<AgeCheck>)
        requires
            valid_date(today_year as int, today_month as int, today_day as int),
        ensures
            r == age_check(self.birthday@, (today_year as int, today_month as int, today_day as int)),
    {
        check_birthday(self.birthday.as_str(), today_year, today_month, today_day)
    }
}

} // verus!
