//! Calendar dates, and the year of a date that was written without one.

use vstd::prelude::*;
use chrono::Datelike;
use crate::hotel::model::HotelSearchError;

verus! {

/// A date of the calendar: a year, a month from 1 and a day from 1.
#[derive(Clone, Copy, Debug, PartialEq, Eq, Structural)]
pub struct CalendarDate {
    pub year: i32,
    pub month: u32,
    pub day: u32,
}

/// The first year that a date can have.
pub const MIN_YEAR: i32 = -262143;

/// The last year that a date can have.
pub const MAX_YEAR: i32 = 262142;

/// Whether a year has a 29th of February.
pub open spec fn is_leap_year(year: int) -> bool {
    year % 4 == 0 && (year % 100 != 0 || year % 400 == 0)
}

/// The number of days of a month.
pub open spec fn days_in_month(year: int, month: int) -> int {
    if month == 2 {
        if is_leap_year(year) {
            29
        } else {
            28
        }
    } else if month == 4 || month == 6 || month == 9 || month == 11 {
        30
    } else {
        31
    }
}

/// Whether the calendar has the date.
pub open spec fn date_exists(year: int, month: int, day: int) -> bool {
    &&& MIN_YEAR <= year <= MAX_YEAR
    &&& 1 <= month <= 12
    &&& 1 <= day <= days_in_month(year, month)
}

/// Whether `a` is an earlier day than `b`.
pub open spec fn earlier(a: CalendarDate, b: CalendarDate) -> bool {
    a.year < b.year || (a.year == b.year && (a.month < b.month || (a.month == b.month && a.day
        < b.day)))
}

/// The day after a date.
pub open spec fn day_after(date: CalendarDate) -> CalendarDate {
    if date.day < days_in_month(date.year as int, date.month as int) {
        CalendarDate { day: (date.day + 1) as u32, ..date }
    } else if date.month < 12 {
        CalendarDate { month: (date.month + 1) as u32, day: 1, ..date }
    } else {
        CalendarDate { year: (date.year + 1) as i32, month: 1, day: 1 }
    }
}

/// The day that comes `n` days after a date.
pub open spec fn days_after(date: CalendarDate, n: nat) -> CalendarDate
    decreases n,
{
    if n == 0 {
        date
    } else {
        day_after(days_after(date, (n - 1) as nat))
    }
}

/// Whether the calendar has a date and each of the `n` days after it.
pub open spec fn days_in_calendar(date: CalendarDate, n: nat) -> bool
    decreases n,
{
    if n == 0 {
        date.in_calendar()
    } else {
        days_in_calendar(date, (n - 1) as nat) && days_after(date, n).in_calendar()
    }
}

/// The date with the year replaced.
pub open spec fn in_year(date: CalendarDate, year: int) -> CalendarDate {
    CalendarDate { year: year as i32, ..date }
}

/// Whether a date written without a year can be given one: the calendar has
/// it in the year of `today`, and, if it has passed in that year, also in
/// the year after.
pub open spec fn year_can_be_inferred(date: CalendarDate, today: CalendarDate) -> bool {
    &&& date_exists(today.year as int, date.month as int, date.day as int)
    &&& earlier(in_year(date, today.year as int), today) ==> date_exists(
        today.year + 1,
        date.month as int,
        date.day as int,
    )
}

/// The next day on which the month and day of `date` come, from `today` on:
/// in the year of `today`, or in the year after when it has passed.
pub open spec fn next_occurrence(date: CalendarDate, today: CalendarDate) -> CalendarDate {
    if earlier(in_year(date, today.year as int), today) {
        in_year(date, today.year + 1)
    } else {
        in_year(date, today.year as int)
    }
}

impl CalendarDate {
    /// Whether the calendar has this date.
    pub open spec fn in_calendar(self) -> bool {
        date_exists(self.year as int, self.month as int, self.day as int)
    }

    /// Whether the calendar has this date.
    pub fn is_valid(&self) -> (res: bool)
        ensures
            res == self.in_calendar(),
    {
        MIN_YEAR <= self.year && self.year <= MAX_YEAR && 1 <= self.month && self.month <= 12 && 1
            <= self.day && self.day <= month_length(self.year, self.month)
    }

    /// Whether this is an earlier day than `other`.
    pub fn is_before(&self, other: &CalendarDate) -> (res: bool)
        ensures
            res == earlier(*self, *other),
    {
        self.year < other.year || (self.year == other.year && (self.month < other.month || (
        self.month == other.month && self.day < other.day)))
    }

    /// The day after this one; `None` when this date or the day after is not
    /// in the calendar.
    pub fn next_day(&self) -> (res: Option<CalendarDate>)
        ensures
            res is Some <==> self.in_calendar() && day_after(*self).in_calendar(),
            res is Some ==> res->0 == day_after(*self),
    {
        if !self.is_valid() {
            return None;
        }
        let next = if self.day < month_length(self.year, self.month) {
            CalendarDate { year: self.year, month: self.month, day: self.day + 1 }
        } else if self.month < 12 {
            CalendarDate { year: self.year, month: self.month + 1, day: 1 }
        } else {
            CalendarDate { year: self.year + 1, month: 1, day: 1 }
        };
        if next.is_valid() {
            Some(next)
        } else {
            None
        }
    }

    /// The day that comes `n` days after this one; `None` when this date or
    /// one of the days up to that one is not in the calendar.
    pub fn plus_days(&self, n: u32) -> (res: Option<CalendarDate>)
        ensures
            res is Some <==> days_in_calendar(*self, n as nat),
            res is Some ==> res->0 == days_after(*self, n as nat),
    {
        if !self.is_valid() {
            proof {
                lemma_days_need_start(*self, n as nat);
            }
            return None;
        }
        let mut date = *self;
        let mut i: u32 = 0;
        while i < n
            invariant
                i <= n,
                date == days_after(*self, i as nat),
                days_in_calendar(*self, i as nat),
            decreases n - i,
        {
            match date.next_day() {
                Some(next) => {
                    date = next;
                },
                None => {
                    proof {
                        lemma_days_need_each(*self, (i + 1) as nat, n as nat);
                    }
                    return None;
                },
            }
            i += 1;
        }
        Some(date)
    }

    /// Gives a date that was written without a year the year of its next
    /// occurrence from `today` on.
    pub fn with_inferred_year(&self, today: &CalendarDate) -> (res: CalendarDate)
        requires
            year_can_be_inferred(*self, *today),
        ensures
            res == next_occurrence(*self, *today),
            res.in_calendar(),
    {
        let this_year = CalendarDate { year: today.year, month: self.month, day: self.day };
        if this_year.is_before(today) {
            CalendarDate { year: today.year + 1, month: self.month, day: self.day }
        } else {
            this_year
        }
    }

    /// Whether [`CalendarDate::with_inferred_year`] can be used.
    pub fn can_infer_year(&self, today: &CalendarDate) -> (res: bool)
        ensures
            res == year_can_be_inferred(*self, *today),
    {
        let this_year = CalendarDate { year: today.year, month: self.month, day: self.day };
        if !this_year.is_valid() {
            return false;
        }
        if this_year.is_before(today) {
            today.year < MAX_YEAR && (CalendarDate {
                year: today.year + 1,
                month: self.month,
                day: self.day,
            }).is_valid()
        } else {
            true
        }
    }
}

/// Days after a date are in the calendar only if the date is.
pub proof fn lemma_days_need_start(date: CalendarDate, n: nat)
    requires
        !date.in_calendar(),
    ensures
        !days_in_calendar(date, n),
    decreases n,
{
    if n > 0 {
        lemma_days_need_start(date, (n - 1) as nat);
    }
}

/// The `n` days after a date are in the calendar only if the first `k` are.
pub proof fn lemma_days_need_each(date: CalendarDate, k: nat, n: nat)
    requires
        k <= n,
        !days_in_calendar(date, k),
    ensures
        !days_in_calendar(date, n),
    decreases n,
{
    if k < n {
        lemma_days_need_each(date, k, (n - 1) as nat);
    }
}

/// The number of days of a month.
pub fn month_length(year: i32, month: u32) -> (days: u32)
    ensures
        days == days_in_month(year as int, month as int),
{
    if month == 2 {
        if year % 4 == 0 && (year % 100 != 0 || year % 400 == 0) {
            29
        } else {
            28
        }
    } else if month == 4 || month == 6 || month == 9 || month == 11 {
        30
    } else {
        31
    }
}

/// What `chrono::NaiveDate::parse_from_str` makes of a text under a format:
/// the date that was read, or nothing when the text does not fit the format
/// or names no date.
pub uninterp spec fn parsed_date(text: Seq<char>, format: Seq<char>) -> Option<CalendarDate>;

/// `chrono::NaiveDate::parse_from_str`, its date handed out as year, month
/// and day, its error as `None`.
#[verifier::external_body]
pub(crate) fn parse_date(text: &str, format: &str) -> (res: Option<CalendarDate>)
    ensures
        res == parsed_date(text@, format@),
{
    chrono::NaiveDate::parse_from_str(text, format).ok().map(
        |d| CalendarDate { year: d.year(), month: d.month(), day: d.day() },
    )
}

/// What `chrono::NaiveDate::format` writes for a date under the format
/// `%Y-%m-%d`.
pub uninterp spec fn iso_text(year: int, month: int, day: int) -> Seq<char>;

/// `chrono::NaiveDate::from_ymd_opt`, then `format` with `%Y-%m-%d`, printed:
/// the date as the travel service reads it. The calendar must have the date.
#[verifier::external_body]
pub(crate) fn write_date(date: &CalendarDate) -> (text: String)
    requires
        date.in_calendar(),
    ensures
        text@ == iso_text(date.year as int, date.month as int, date.day as int),
{
    chrono::NaiveDate::from_ymd_opt(date.year, date.month, date.day).unwrap().format(
        "%Y-%m-%d",
    ).to_string()
}

/// The date as the travel service reads it; `None` when the calendar has no
/// such date.
pub fn date_text(date: &CalendarDate) -> (res: Option<String>)
    ensures
        res is Some <==> date.in_calendar(),
        res is Some ==> res->0@ == iso_text(date.year as int, date.month as int, date.day as int),
{
    if date.is_valid() {
        Some(write_date(date))
    } else {
        None
    }
}

/// The words with which a date is refused.
pub open spec fn unreadable_date(text: Seq<char>) -> Seq<char> {
    "Could not parse date: "@ + text
}

/// The date that the four readings of a text give: the reading with a year,
/// as it is; otherwise the first of the readings without a year that gave a
/// date, at its next occurrence from `today` on; `None` when no reading gave
/// a date, or the chosen one has no next occurrence in the calendar.
pub open spec fn chosen_date(
    full: Option<CalendarDate>,
    month_day: Option<CalendarDate>,
    month_name_day: Option<CalendarDate>,
    day_month_name: Option<CalendarDate>,
    today: CalendarDate,
) -> Option<CalendarDate> {
    if full is Some {
        full
    } else {
        let partial = if month_day is Some {
            month_day
        } else if month_name_day is Some {
            month_name_day
        } else {
            day_month_name
        };
        match partial {
            Some(date) => if year_can_be_inferred(date, today) {
                Some(next_occurrence(date, today))
            } else {
                None
            },
            None => None,
        }
    }
}

/// Chooses the date among the four readings of `text`, and refuses the text
/// with `InvalidResponse` when they give none.
pub fn choose_date(
    full: Option<CalendarDate>,
    month_day: Option<CalendarDate>,
    month_name_day: Option<CalendarDate>,
    day_month_name: Option<CalendarDate>,
    today: &CalendarDate,
    text: &str,
) -> (res: Result<CalendarDate, HotelSearchError>)
    ensures
        match chosen_date(full, month_day, month_name_day, day_month_name, *today) {
            Some(date) => res == Ok::<CalendarDate, HotelSearchError>(date),
            None => res is Err && res->Err_0 is InvalidResponse && res->Err_0->InvalidResponse_0@
                == unreadable_date(text@),
        },
{
    if let Some(date) = full {
        return Ok(date);
    }
    let partial = if month_day.is_some() {
        month_day
    } else if month_name_day.is_some() {
        month_name_day
    } else {
        day_month_name
    };
    if let Some(date) = partial {
        if date.can_infer_year(today) {
            return Ok(date.with_inferred_year(today));
        }
    }
    let mut words = "Could not parse date: ".to_owned();
    words.append(text);
    Err(HotelSearchError::InvalidResponse(words))
}

/// Reads a date that may be written without its year, as `2025-08-08`,
/// `08-08`, `August 8` or `8 August`; a date without a year is taken at its
/// next occurrence from `today` on.
pub fn parse_and_infer_year(date_str: &str, today: &CalendarDate) -> (res: Result<
    CalendarDate,
    HotelSearchError,
>)
    ensures
        match chosen_date(
            parsed_date(date_str@, "%Y-%m-%d"@),
            parsed_date(date_str@, "%m-%d"@),
            parsed_date(date_str@, "%B %e"@),
            parsed_date(date_str@, "%e %B"@),
            *today,
        ) {
            Some(date) => res == Ok::<CalendarDate, HotelSearchError>(date),
            None => res is Err && res->Err_0 is InvalidResponse && res->Err_0->InvalidResponse_0@
                == unreadable_date(date_str@),
        },
{
    let full = parse_date(date_str, "%Y-%m-%d");
    let month_day = parse_date(date_str, "%m-%d");
    let month_name_day = parse_date(date_str, "%B %e");
    let day_month_name = parse_date(date_str, "%e %B");
    choose_date(full, month_day, month_name_day, day_month_name, today, date_str)
}

} // verus!
