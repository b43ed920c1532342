//! Calendar dates.
//!
//! A [`Date`] is a day of the proleptic Gregorian calendar, held as its day
//! number: 1 January of year 1 is day 1. Order, equality and day arithmetic are
//! integer arithmetic on that number. Reading and writing the `YYYY-MM-DD`
//! form is left to `chrono`.

use chrono::{Datelike, NaiveDate};
use vstd::prelude::*;

verus! {

/// Day number of the earliest date the calendar can hold (1 January 262144 BCE).
pub const MIN_DAY: i32 = -95_746_129;

/// Day number of the latest date the calendar can hold (31 December 262142 CE).
pub const MAX_DAY: i32 = 95_745_399;

/// The day number that `chrono` reads from a text in the form `%Y-%m-%d`, or
/// `None` where it rejects the text.
pub uninterp spec fn parsed_day(text: Seq<char>) -> Option<int>;

/// The text that `chrono` writes for a day number in the form `%Y-%m-%d`.
pub uninterp spec fn day_text(day: int) -> Seq<char>;

/// Calls `chrono::NaiveDate::parse_from_str` with the format `%Y-%m-%d` and
/// hands the date out as its `Datelike::num_days_from_ce`. The contract names
/// the outcome `parsed_day` of the text, and adds that every date `chrono`
/// holds lies between its `NaiveDate::MIN` and `NaiveDate::MAX`.
#[verifier::external_body]
fn parse_day_number(s: &str) -> (r: Option<i32>)
    ensures
        r is Some <==> parsed_day(s@) is Some,
        r matches Some(d) ==> parsed_day(s@) == Some(d as int) && MIN_DAY <= d <= MAX_DAY,
{
    match NaiveDate::parse_from_str(s, "%Y-%m-%d") {
        Ok(date) => Some(date.num_days_from_ce()),
        Err(_) => None,
    }
}

/// Calls `chrono::NaiveDate::format` with the format `%Y-%m-%d` on the date
/// that `NaiveDate::from_num_days_from_ce_opt` makes of `day`. The contract
/// keeps to day numbers from `NaiveDate::MIN` to `NaiveDate::MAX`, for which
/// that date exists, and names the text `day_text` of the day number.
#[verifier::external_body]
fn day_number_text(day: i32) -> (r: String)
    requires
        MIN_DAY <= day <= MAX_DAY,
    ensures
        r@ == day_text(day as int),
{
    NaiveDate::from_num_days_from_ce_opt(day).unwrap().format("%Y-%m-%d").to_string()
}

/// A calendar date.
#[derive(Clone, Copy, Debug, PartialEq, Eq, Structural, PartialOrd, Ord, Hash)]
pub struct Date {
    day: i32,
}

impl View for Date {
    type V = int;

    /// The day number.
    closed spec fn view(&self) -> int {
        self.day as int
    }
}

/// The date with the given day number.
pub closed spec fn date_on(day: int) -> Date {
    Date { day: day as i32 }
}

impl Date {
    /// Every date lies within the calendar.
    #[verifier::type_invariant]
    pub open spec fn in_calendar(self) -> bool {
        MIN_DAY <= self@ <= MAX_DAY
    }

    /// The date with the given day number, where the calendar holds one.
    pub fn from_days(day: i32) -> (r: Option<Date>)
        ensures
            r is Some <==> MIN_DAY <= day <= MAX_DAY,
            r matches Some(d) ==> d@ == day && d == date_on(day as int),
    {
        if MIN_DAY <= day && day <= MAX_DAY {
            Some(Date { day })
        } else {
            None
        }
    }

    /// The day number.
    pub fn days(&self) -> (n: i32)
        ensures
            n == self@,
            MIN_DAY <= n <= MAX_DAY,
    {
        proof {
            use_type_invariant(self);
        }
        self.day
    }

    /// Reads a date written as `YYYY-MM-DD`.
    pub fn parse(s: &str) -> (r: Option<Date>)
        ensures
            r is Some <==> parsed_day(s@) is Some,
            r matches Some(d) ==> parsed_day(s@) == Some(d@),
    {
        match parse_day_number(s) {
            Some(day) => Some(Date { day }),
            None => None,
        }
    }

    /// Writes the date as `YYYY-MM-DD`.
    pub fn to_text(&self) -> (r: String)
        ensures
            r@ == day_text(self@),
    {
        proof {
            use_type_invariant(self);
        }
        day_number_text(self.day)
    }

    /// Whether `self` is an earlier day than `other`.
    pub fn before(&self, other: &Date) -> (r: bool)
        ensures
            r == (self@ < other@),
    {
        self.day < other.day
    }

    /// Whether both are the same day.
    pub fn same_day(&self, other: &Date) -> (r: bool)
        ensures
            r == (self@ == other@),
            r == (*self == *other),
    {
        self.day == other.day
    }

    /// The number of days from `other` to `self`; negative where `self` is the
    /// earlier one.
    pub fn days_since(&self, other: &Date) -> (n: i64)
        ensures
            n == self@ - other@,
            MIN_DAY - MAX_DAY <= n <= MAX_DAY - MIN_DAY,
    {
        proof {
            use_type_invariant(self);
            use_type_invariant(other);
        }
        self.day as i64 - other.day as i64
    }

    /// The date `n` days before `self`, where the calendar holds one.
    pub fn minus_days(&self, n: i64) -> (r: Option<Date>)
        ensures
            r is Some <==> MIN_DAY <= self@ - n <= MAX_DAY,
            r matches Some(d) ==> d@ == self@ - n && d == date_on(self@ - n),
    {
        proof {
            use_type_invariant(self);
        }
        let low: i64 = self.day as i64 - MAX_DAY as i64;
        let high: i64 = self.day as i64 - MIN_DAY as i64;
        if low <= n && n <= high {
            let day: i64 = self.day as i64 - n;
            Some(Date { day: day as i32 })
        } else {
            None
        }
    }

    /// The day before `self`, where the calendar holds one.
    pub fn pred(&self) -> (r: Option<Date>)
        ensures
            r is Some <==> MIN_DAY < self@,
            r matches Some(d) ==> d@ == self@ - 1 && d == date_on(self@ - 1),
    {
        proof {
            use_type_invariant(self);
        }
        self.minus_days(1)
    }
}

/// Two dates are the same value exactly when their day numbers agree.
pub proof fn lemma_date_by_day(a: Date, b: Date)
    ensures
        (a == b) <==> (a@ == b@),
{
}

/// The date on a day that the calendar holds has that day's number.
pub proof fn lemma_date_on(day: int)
    requires
        MIN_DAY <= day <= MAX_DAY,
    ensures
        date_on(day)@ == day,
{
}

} // verus!
