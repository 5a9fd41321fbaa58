//! Calendar dates, held as year, month and day.

use vstd::prelude::*;

verus! {

/// The first year that a day can lie in.
pub const MIN_YEAR: i32 = -262143;

/// The last year that a day can lie in.
pub const MAX_YEAR: i32 = 262142;

/// A day of the proleptic Gregorian calendar.
#[derive(Clone, Copy, Debug, PartialEq, Eq, Structural)]
pub struct Date {
    pub year: i32,
    pub month: u32,
    pub day: u32,
}

/// What `chrono::NaiveDate` writes for the day (`Display`, the form
/// `%Y-%m-%d`); the empty text where `chrono` has no such day.
pub uninterp spec fn date_text(year: int, month: int, day: int) -> Seq<char>;

/// What `chrono::NaiveDate::parse_from_str` reads from the text in the
/// given form: year, month and day, or nothing where it returns an error.
pub uninterp spec fn date_parsed(text: Seq<char>, fmt: Seq<char>) -> Option<(int, int, int)>;

/// The day that the text holds in the given form, if it holds one.
pub open spec fn date_read(text: Seq<char>, fmt: Seq<char>) -> Option<Date> {
    match date_parsed(text, fmt) {
        Some(t) => Some(Date { year: t.0 as i32, month: t.1 as u32, day: t.2 as u32 }),
        None => None,
    }
}

/// Whether the first day lies before the second.
pub open spec fn date_before(a: Date, b: Date) -> bool {
    ||| a.year < b.year
    ||| a.year == b.year && a.month < b.month
    ||| a.year == b.year && a.month == b.month && a.day < b.day
}

/// Whether the year has a 29th of February.
pub open spec fn is_leap_year(year: int) -> bool {
    year % 4 == 0 && (year % 100 != 0 || year % 400 == 0)
}

/// The number of days of the month; 0 where there is no such month.
pub open spec fn days_in_month(year: int, month: int) -> int {
    if month == 2 {
        if is_leap_year(year) { 29 } else { 28 }
    } else if month == 4 || month == 6 || month == 9 || month == 11 {
        30
    } else if 1 <= month <= 12 {
        31
    } else {
        0
    }
}

/// Whether the calendar has the day, in a year from `MIN_YEAR` to
/// `MAX_YEAR`.
pub open spec fn is_calendar_day(year: int, month: int, day: int) -> bool {
    MIN_YEAR <= year <= MAX_YEAR && 1 <= day <= days_in_month(year, month)
}

impl Date {
    /// The day, if the calendar has it.
    pub fn from_ymd_opt(year: i32, month: u32, day: u32) -> (r: Option<Date>)
        ensures
            r is Some <==> is_calendar_day(year as int, month as int, day as int),
            r is Some ==> r->0 == (Date { year, month, day }),
    {
        let leap = year % 4 == 0 && (year % 100 != 0 || year % 400 == 0);
        let days: u32 = if month == 2 {
            if leap { 29 } else { 28 }
        } else if month == 4 || month == 6 || month == 9 || month == 11 {
            30
        } else if 1 <= month && month <= 12 {
            31
        } else {
            0
        };
        if MIN_YEAR <= year && year <= MAX_YEAR && 1 <= day && day <= days {
            Some(Date { year, month, day })
        } else {
            None
        }
    }

    /// The day that the text holds in the given form, if it holds one.
    pub fn parse_from_str(text: &str, fmt: &str) -> (r: Option<Date>)
        ensures
            r == date_read(text@, fmt@),
    {
        read_date(text, fmt)
    }

    /// The first day of the year 1, which undated directives carry.
    pub fn base() -> (r: Date)
        ensures
            r == (Date { year: 1, month: 1, day: 1 }),
    {
        Date { year: 1, month: 1, day: 1 }
    }

    /// Whether this day lies before the other.
    pub fn before(&self, other: &Date) -> (r: bool)
        ensures
            r == date_before(*self, *other),
    {
        self.year < other.year || (self.year == other.year && (self.month < other.month || (
        self.month == other.month && self.day < other.day)))
    }

    /// The day as text, in the form `2023-01-31`.
    pub fn to_text(&self) -> (r: String)
        ensures
            r@ == date_text(self.year as int, self.month as int, self.day as int),
    {
        render_date(self.year, self.month, self.day)
    }
}

/// Calls `chrono::NaiveDate::parse_from_str`. What is read is not stated but
/// named: `date_parsed` of text and form, which is nothing where `chrono`
/// returns an error, and else the year, month and day of the date.
#[verifier::external_body]
fn read_date(text: &str, fmt: &str) -> (r: Option<Date>)
    ensures
        match r {
            Some(d) => date_parsed(text@, fmt@) == Some(
                (d.year as int, d.month as int, d.day as int),
            ),
            None => date_parsed(text@, fmt@) is None,
        },
{
    match chrono::NaiveDate::parse_from_str(text, fmt) {
        Ok(d) => Some(
            Date {
                year: chrono::Datelike::year(&d),
                month: chrono::Datelike::month(&d),
                day: chrono::Datelike::day(&d),
            },
        ),
        Err(_) => None,
    }
}

/// Calls `chrono::NaiveDate::from_ymd_opt` and writes the day with its
/// `Display`. The text is not stated but named: `date_text` of the three
/// numbers, which is empty where `chrono` has no such day.
#[verifier::external_body]
fn render_date(year: i32, month: u32, day: u32) -> (r: String)
    ensures
        r@ == date_text(year as int, month as int, day as int),
{
    match chrono::NaiveDate::from_ymd_opt(year, month, day) {
        Some(d) => d.to_string(),
        None => String::new(),
    }
}

} // verus!
