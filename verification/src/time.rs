//! Instants and calendar dates as plain integers.

use vstd::prelude::*;

verus! {

/// An instant in UTC, counted in microseconds since 1970-01-01T00:00:00.
#[derive(Clone, Copy, Debug, PartialEq, Eq, Structural)]
pub struct Timestamp {
    pub micros: i64,
}

impl Timestamp {
    /// `self` lies strictly earlier than `other`.
    pub open spec fn before(self, other: Timestamp) -> bool {
        self.micros < other.micros
    }

    pub fn is_before(&self, other: &Timestamp) -> (r: bool)
        ensures
            r == self.before(*other),
    {
        self.micros < other.micros
    }
}

/// Reads the system clock through `chrono::Utc::now` and hands back the
/// instant as `DateTime::timestamp_micros` reports it. Nothing is claimed of
/// the value: two calls may differ. `Utc::now` gives up when the system clock
/// stands before 1970.
#[verifier::external_body]
pub(crate) fn current_time() -> (now: Timestamp) {
    Timestamp { micros: chrono::Utc::now().timestamp_micros() }
}

/// The lowest and highest year that a calendar date may carry.
pub const MIN_YEAR: i32 = -262143;

pub const MAX_YEAR: i32 = 262142;

/// Whether `year` is a leap year of the proleptic Gregorian calendar.
pub open spec fn leap_year(year: int) -> bool {
    year % 4 == 0 && (year % 100 != 0 || year % 400 == 0)
}

/// The number of days of `month` in `year`; 0 where there is no such month.
pub open spec fn days_in_month(year: int, month: int) -> int {
    if month == 2 {
        if leap_year(year) {
            29
        } else {
            28
        }
    } else if month == 4 || month == 6 || month == 9 || month == 11 {
        30
    } else if 1 <= month <= 12 {
        31
    } else {
        0
    }
}

/// Whether year, month and day name a day of the calendar within the years
/// that a date may carry.
pub open spec fn valid_date(year: int, month: int, day: int) -> bool {
    &&& MIN_YEAR <= year <= MAX_YEAR
    &&& 1 <= month <= 12
    &&& 1 <= day <= days_in_month(year, month)
}

/// A day of the proleptic Gregorian calendar. Every value names a day that
/// exists.
#[derive(Clone, Copy, Debug, PartialEq, Eq, Structural)]
pub struct ReleaseDate {
    year: i32,
    month: u32,
    day: u32,
}

impl View for ReleaseDate {
    type V = (int, int, int);

    /// Year, month and day.
    closed spec fn view(&self) -> (int, int, int) {
        (self.year as int, self.month as int, self.day as int)
    }
}

impl ReleaseDate {
    #[verifier::type_invariant]
    spec fn exists_in_calendar(self) -> bool {
        valid_date(self.year as int, self.month as int, self.day as int)
    }

    /// The date of the given year, month and day, if there is such a day.
    pub fn from_ymd_opt(year: i32, month: u32, day: u32) -> (date: Option<ReleaseDate>)
        ensures
            date is Some <==> valid_date(year as int, month as int, day as int),
            date matches Some(d) ==> d@ == (year as int, month as int, day as int),
    {
        if year < MIN_YEAR || year > MAX_YEAR || month < 1 || month > 12 || day < 1 {
            return None;
        }
        let leap = year % 4 == 0 && (year % 100 != 0 || year % 400 == 0);
        let last: u32 = if month == 2 {
            if leap {
                29
            } else {
                28
            }
        } else if month == 4 || month == 6 || month == 9 || month == 11 {
            30
        } else {
            31
        };
        if day > last {
            None
        } else {
            Some(ReleaseDate { year, month, day })
        }
    }

    /// The date of the given year, month and day.
    pub closed spec fn from_parts(year: int, month: int, day: int) -> ReleaseDate {
        ReleaseDate { year: year as i32, month: month as u32, day: day as u32 }
    }

    /// A date is the date of its own year, month and day.
    pub proof fn lemma_parts(self)
        ensures
            ReleaseDate::from_parts(self@.0, self@.1, self@.2) == self,
    {
    }

    /// Year, month and day, which name a day that exists.
    pub fn parts(&self) -> (p: (i32, u32, u32))
        ensures
            self@ == (p.0 as int, p.1 as int, p.2 as int),
            valid_date(p.0 as int, p.1 as int, p.2 as int),
    {
        proof {
            use_type_invariant(self);
        }
        (self.year, self.month, self.day)
    }

    pub fn year(&self) -> (y: i32)
        ensures
            y == self@.0,
    {
        self.year
    }

    pub fn month(&self) -> (m: u32)
        ensures
            m == self@.1,
    {
        self.month
    }

    pub fn day(&self) -> (d: u32)
        ensures
            d == self@.2,
    {
        self.day
    }

    /// `self` is an earlier day than `other`.
    pub open spec fn before(self, other: ReleaseDate) -> bool {
        self@.0 < other@.0 || (self@.0 == other@.0 && (self@.1 < other@.1 || (self@.1 == other@.1
            && self@.2 < other@.2)))
    }

    pub fn is_before(&self, other: &ReleaseDate) -> (r: bool)
        ensures
            r == self.before(*other),
    {
        self.year < other.year || (self.year == other.year && (self.month < other.month || (
        self.month == other.month && self.day < other.day)))
    }
}

/// Year, month and day of an optional date.
pub open spec fn date_parts(date: Option<ReleaseDate>) -> Option<(int, int, int)> {
    match date {
        Some(d) => Some(d@),
        None => None,
    }
}

/// Year, month and day as mathematical integers.
pub open spec fn wide_parts(parts: Option<(i32, u32, u32)>) -> Option<(int, int, int)> {
    match parts {
        Some(d) => Some((d.0 as int, d.1 as int, d.2 as int)),
        None => None,
    }
}

/// Year, month and day of an optional date, which name a day that exists.
pub fn optional_parts(date: &Option<ReleaseDate>) -> (parts: Option<(i32, u32, u32)>)
    ensures
        wide_parts(parts) == date_parts(*date),
        parts matches Some(d) ==> valid_date(d.0 as int, d.1 as int, d.2 as int),
{
    match date {
        Some(d) => Some(d.parts()),
        None => None,
    }
}

/// Of two different dates one is the earlier.
pub proof fn lemma_date_total(a: ReleaseDate, b: ReleaseDate)
    ensures
        a == b || a.before(b) || b.before(a),
{
}

} // verus!
