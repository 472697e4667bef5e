//! Dates, date ranges and recurring days.

use vstd::prelude::*;

verus! {

/// A wildcard month, day, weekday or week.
pub const ANY: u8 = 255;

/// A wildcard year.
pub const UNSPECIFIED_YEAR: u16 = 255;

/// A span of days, both ends included. An end with an unspecified year is open.
#[derive(Debug, Clone, Copy, PartialEq, Eq)]
pub struct DateRangeValue {
    /// The first day: year, month, day, weekday.
    pub start: (u16, u8, u8, u8),
    /// The last day: year, month, day, weekday.
    pub end: (u16, u8, u8, u8),
}

/// One entry of a calendar.
#[derive(Debug, Clone, Copy, PartialEq, Eq)]
pub enum CalendarEntryValue {
    /// A date: year, month, day, weekday, each of which may be a wildcard.
    Date(u16, u8, u8, u8),
    /// Every day of a span.
    DateRange(DateRangeValue),
    /// A recurring day: month, week of the month, weekday.
    ///
    /// Month 13 is every odd month and month 14 every even one. Weeks 1 to 5
    /// count from the first of the month and week 6 is its last seven days.
    WeekNDay(u8, u8, u8),
}

/// Whether `a` comes before `b` by year, month and day.
pub open spec fn earlier(a: (u16, u8, u8, u8), b: (u16, u8, u8, u8)) -> bool {
    a.0 < b.0 || (a.0 == b.0 && (a.1 < b.1 || (a.1 == b.1 && a.2 < b.2)))
}

/// Whether a year has a twenty-ninth of February.
pub open spec fn is_leap(year: u16) -> bool {
    year % 4 == 0 && (year % 100 != 0 || year % 400 == 0)
}

/// How many days a month has.
pub open spec fn days_in(year: u16, month: u8) -> u8 {
    if month == 2 {
        if is_leap(year) {
            29
        } else {
            28
        }
    } else if month == 4 || month == 6 || month == 9 || month == 11 {
        30
    } else {
        31
    }
}

/// Whether a field is a wildcard or is the given value.
pub open spec fn field_matches(field: u8, value: u8) -> bool {
    field == ANY || field == value
}

/// Whether a month of a recurring day covers `month`.
pub open spec fn month_matches(field: u8, month: u8) -> bool {
    ||| field_matches(field, month)
    ||| field == 13 && month % 2 == 1
    ||| field == 14 && month % 2 == 0
}

/// Whether a week of a recurring day covers `day` of a month.
pub open spec fn week_matches(field: u8, year: u16, month: u8, day: u8) -> bool {
    ||| field == ANY
    ||| 1 <= field <= 5 && (field - 1) * 7 < day <= field * 7
    ||| field == 6 && day + 7 > days_in(year, month)
}

impl DateRangeValue {
    /// Whether `date` is not before the start and not after the end.
    pub open spec fn spans(self, date: (u16, u8, u8, u8)) -> bool {
        &&& self.start.0 == UNSPECIFIED_YEAR || !earlier(date, self.start)
        &&& self.end.0 == UNSPECIFIED_YEAR || !earlier(self.end, date)
    }

    /// Whether `date` lies in the span.
    pub fn contains(&self, date: (u16, u8, u8, u8)) -> (inside: bool)
        ensures
            inside == self.spans(date),
    {
        (self.start.0 == UNSPECIFIED_YEAR || !is_earlier(date, self.start)) && (self.end.0
            == UNSPECIFIED_YEAR || !is_earlier(self.end, date))
    }
}

/// Whether `a` comes before `b` by year, month and day.
fn is_earlier(a: (u16, u8, u8, u8), b: (u16, u8, u8, u8)) -> (result: bool)
    ensures
        result == earlier(a, b),
{
    a.0 < b.0 || (a.0 == b.0 && (a.1 < b.1 || (a.1 == b.1 && a.2 < b.2)))
}

/// How many days a month has.
fn count_days(year: u16, month: u8) -> (days: u8)
    ensures
        days == days_in(year, month),
{
    if month == 2 {
        if year % 4 == 0 && (year % 100 != 0 || year % 400 == 0) {
            29
        } else {
            28
        }
    } else if month == 4 || month == 6 || month == 9 || month == 11 {
        30
    } else {
        31
    }
}

impl CalendarEntryValue {
    /// Whether the entry covers `date`, given as year, month, day and weekday with
    /// weekday 1 for Monday.
    pub open spec fn covers(self, date: (u16, u8, u8, u8)) -> bool {
        match self {
            CalendarEntryValue::Date(year, month, day, weekday) => {
                &&& year == UNSPECIFIED_YEAR || year == date.0
                &&& field_matches(month, date.1)
                &&& field_matches(day, date.2)
                &&& field_matches(weekday, date.3)
            },
            CalendarEntryValue::DateRange(range) => range.spans(date),
            CalendarEntryValue::WeekNDay(month, week, weekday) => {
                &&& month_matches(month, date.1)
                &&& week_matches(week, date.0, date.1, date.2)
                &&& field_matches(weekday, date.3)
            },
        }
    }

    /// Whether the entry covers `date`.
    pub fn matches(&self, date: (u16, u8, u8, u8)) -> (covered: bool)
        ensures
            covered == self.covers(date),
    {
        match self {
            CalendarEntryValue::Date(year, month, day, weekday) => {
                (*year == UNSPECIFIED_YEAR || *year == date.0) && (*month == ANY || *month == date.1)
                    && (*day == ANY || *day == date.2) && (*weekday == ANY || *weekday == date.3)
            },
            CalendarEntryValue::DateRange(range) => range.contains(date),
            CalendarEntryValue::WeekNDay(month, week, weekday) => {
                let in_month = *month == ANY || *month == date.1 || (*month == 13 && date.1 % 2
                    == 1) || (*month == 14 && date.1 % 2 == 0);
                let in_week = *week == ANY || (1 <= *week && *week <= 5 && (*week - 1) * 7 < date.2
                    && date.2 <= *week * 7) || (*week == 6 && date.2 as u16 + 7 > count_days(
                    date.0,
                    date.1,
                ) as u16);
                in_month && in_week && (*weekday == ANY || *weekday == date.3)
            },
        }
    }
}

/// A range with two open ends covers every day; a range of one day covers that
/// day.
pub proof fn law_date_range_ends(range: DateRangeValue, date: (u16, u8, u8, u8))
    ensures
        range.start.0 == UNSPECIFIED_YEAR && range.end.0 == UNSPECIFIED_YEAR ==> range.spans(date),
        range.start == date && range.end == date ==> range.spans(date),
        range.start.0 != UNSPECIFIED_YEAR && range.end.0 != UNSPECIFIED_YEAR && earlier(
            range.end,
            range.start,
        ) ==> !range.spans(date),
{
}

} // verus!
