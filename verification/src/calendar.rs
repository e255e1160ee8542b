//! Calendar dates as day numbers, and the Sunday-to-Saturday weeks that group them.
//!
//! A date is held as its day number in the proleptic Gregorian calendar, with
//! 1 January of year 1 as day 1. Day arithmetic is then integer arithmetic, and
//! what only a calendar can tell (the weekday of a day, its year, month and day
//! of month) is asked of `chrono`.

use chrono::{Datelike, NaiveDate, TimeDelta};
use vstd::prelude::*;
use vstd::string::StringExecFns;

verus! {

/// Day number of the earliest date that the calendar holds (1 January of year -262143).
pub const MIN_DAY: i32 = -95_746_129;

/// Day number of the latest date that the calendar holds (31 December of year 262142).
pub const MAX_DAY: i32 = 95_745_399;

/// A calendar date, held as its day number: day 1 is 1 January of year 1.
#[derive(Clone, Copy, Debug, PartialEq, Eq, Hash)]
pub struct Date {
    pub days: i32,
}

/// How many days after the latest Sunday the day with this number falls:
/// 0 for a Sunday, 6 for a Saturday. Day 1 is a Monday.
pub open spec fn weekday_from_sunday(days: int) -> int {
    days % 7
}

/// Day number of the Sunday on or before the day with this number.
pub open spec fn sunday_on_or_before(days: int) -> int {
    days - weekday_from_sunday(days)
}

/// Whether a day number lies within the calendar.
pub open spec fn in_calendar(days: int) -> bool {
    MIN_DAY <= days <= MAX_DAY
}

/// The text of a date in the form year-month-day, as `chrono` prints it.
pub uninterp spec fn iso_date_text(days: int) -> Seq<char>;

impl Date {
    /// A date is well formed when the calendar holds it.
    pub open spec fn wf(self) -> bool {
        in_calendar(self.days as int)
    }

    /// The date with the given day number, if the calendar holds it.
    pub fn new(days: i32) -> (date: Option<Date>)
        ensures
            date == (if in_calendar(days as int) {
                Some(Date { days })
            } else {
                None
            }),
    {
        if MIN_DAY <= days && days <= MAX_DAY {
            Some(Date { days })
        } else {
            None
        }
    }

    /// Tells whether the calendar holds this date.
    pub fn is_valid(&self) -> (valid: bool)
        ensures
            valid == self.wf(),
    {
        MIN_DAY <= self.days && self.days <= MAX_DAY
    }

    /// The date written as year-month-day.
    pub fn text(&self) -> (text: String)
        requires
            self.wf(),
        ensures
            text@ == iso_date_text(self.days as int),
    {
        date_text(*self)
    }
}

/// Asks `chrono` for the weekday of a date: `NaiveDate::from_num_days_from_ce_opt`
/// rebuilds the date from its day number, `Datelike::weekday` gives its weekday and
/// `Weekday::num_days_from_sunday` numbers it from Sunday = 0 to Saturday = 6.
/// The contract claims that this number is the day number modulo 7: the weekdays
/// repeat every seven days, and day 1 is a Monday (as day 719163, Thursday
/// 1 January 1970, confirms).
#[verifier::external_body]
pub(crate) fn days_from_sunday(date: Date) -> (offset: u32)
    requires
        date.wf(),
    ensures
        offset as int == weekday_from_sunday(date.days as int),
{
    let day = NaiveDate::from_num_days_from_ce_opt(date.days).unwrap();
    day.weekday().num_days_from_sunday()
}

/// Moves a date by whole days with `chrono`'s `NaiveDate::checked_add_signed`, the
/// span being made by `TimeDelta::days`. The contract claims that the day number
/// moves by `delta`, and that the result is `None` exactly when the day so reached
/// lies outside the calendar.
#[verifier::external_body]
pub(crate) fn shift_date(date: Date, delta: i32) -> (moved: Option<Date>)
    requires
        date.wf(),
    ensures
        moved == (if in_calendar(date.days + delta) {
            Some(Date { days: (date.days + delta) as i32 })
        } else {
            None
        }),
{
    let day = NaiveDate::from_num_days_from_ce_opt(date.days).unwrap();
    match day.checked_add_signed(TimeDelta::days(i64::from(delta))) {
        Some(reached) => Some(Date { days: reached.num_days_from_ce() }),
        None => None,
    }
}

/// Prints a date through `chrono`'s `Display` for `NaiveDate`, after
/// `NaiveDate::from_num_days_from_ce_opt` has rebuilt it from its day number.
/// The text depends on the day number alone; the contract gives it the name
/// `iso_date_text` and claims nothing else of it.
#[verifier::external_body]
pub(crate) fn date_text(date: Date) -> (text: String)
    requires
        date.wf(),
    ensures
        text@ == iso_date_text(date.days as int),
{
    let day = NaiveDate::from_num_days_from_ce_opt(date.days).unwrap();
    day.to_string()
}

/// A week from Sunday to Saturday, the bucket into which days are grouped.
#[derive(Clone, Copy, Debug, PartialEq, Eq, Hash)]
pub struct WeekKey {
    pub sunday: Date,
    pub saturday: Date,
}

impl WeekKey {
    /// A week key is well formed when it starts on a Sunday, ends on the Saturday
    /// six days later, and both dates lie in the calendar.
    pub open spec fn wf(self) -> bool {
        &&& self.sunday.wf()
        &&& self.saturday.wf()
        &&& weekday_from_sunday(self.sunday.days as int) == 0
        &&& self.saturday.days == self.sunday.days + 6
    }

    /// Whether a date falls within this week, both ends included.
    pub open spec fn holds(self, date: Date) -> bool {
        self.sunday.days <= date.days <= self.saturday.days
    }

    /// The text under which this week is shown: its Sunday, " - ", its Saturday.
    pub open spec fn label_text(self) -> Seq<char> {
        joined_label(
            iso_date_text(self.sunday.days as int),
            iso_date_text(self.saturday.days as int),
        )
    }

    /// Tells whether this key is well formed.
    pub fn is_valid(&self) -> (valid: bool)
        ensures
            valid == self.wf(),
    {
        self.sunday.is_valid() && self.saturday.is_valid() && self.sunday.days % 7 == 0
            && self.saturday.days - 6 == self.sunday.days
    }

    /// Tells whether two keys name the same week.
    pub fn same_as(&self, other: &WeekKey) -> (same: bool)
        ensures
            same == (*self == *other),
    {
        self.sunday.days == other.sunday.days && self.saturday.days == other.saturday.days
    }

    /// The label of this week, such as "2024-09-01 - 2024-09-07".
    pub fn label(&self) -> (label: String)
        requires
            self.wf(),
        ensures
            label@ == self.label_text(),
    {
        let first = date_text(self.sunday);
        let last = date_text(self.saturday);
        join_week_label(first.as_str(), last.as_str())
    }
}

/// The two date texts of a week with " - " between them.
pub open spec fn joined_label(sunday: Seq<char>, saturday: Seq<char>) -> Seq<char> {
    sunday + seq![' ', '-', ' '] + saturday
}

/// Joins the texts of a week's two ends into its label.
pub fn join_week_label(sunday: &str, saturday: &str) -> (label: String)
    ensures
        label@ == joined_label(sunday@, saturday@),
{
    let between = " - ";
    proof {
        reveal_strlit(" - ");
        assert(between@ =~= seq![' ', '-', ' ']);
    }
    let mut label = String::from_str(sunday);
    label.append(between);
    label.append(saturday);
    label
}

/// The week of a date: from the Sunday on or before it to the Saturday six days
/// later. There is none where that week reaches beyond the calendar.
pub open spec fn week_of(date: Date) -> Option<WeekKey> {
    let sunday = sunday_on_or_before(date.days as int);
    if in_calendar(sunday) && in_calendar(sunday + 6) {
        Some(
            WeekKey {
                sunday: Date { days: sunday as i32 },
                saturday: Date { days: (sunday + 6) as i32 },
            },
        )
    } else {
        None
    }
}

/// Computes the Sunday-to-Saturday week that contains a date. There is none for
/// a date outside the calendar, nor where the week reaches beyond it.
pub fn week_bucket(date: Date) -> (week: Option<WeekKey>)
    ensures
        week == week_of(date),
{
    if !date.is_valid() {
        return None;
    }
    let offset: u32 = days_from_sunday(date);
    let back: i32 = 0 - (offset as i32);
    match shift_date(date, back) {
        None => None,
        Some(sunday) => match shift_date(sunday, 6) {
            None => None,
            Some(saturday) => Some(WeekKey { sunday, saturday }),
        },
    }
}

/// The week of a date is well formed and holds the date: it starts on the Sunday
/// on or before the date and ends on the Saturday on or after it.
pub proof fn law_week_holds_its_date(date: Date)
    requires
        week_of(date) is Some,
    ensures
        week_of(date)->0.wf(),
        week_of(date)->0.holds(date),
        weekday_from_sunday(week_of(date)->0.sunday.days as int) == 0,
        weekday_from_sunday(week_of(date)->0.saturday.days as int) == 6,
{
}

/// Two dates have the same week exactly when the second falls within the week
/// of the first; their labels are then the same too.
pub proof fn law_same_week_same_key(first: Date, second: Date)
    requires
        week_of(first) is Some,
    ensures
        week_of(first)->0.holds(second) <==> week_of(second) == week_of(first),
        week_of(second) == week_of(first) ==> week_of(second)->0.label_text() == week_of(
            first,
        )->0.label_text(),
{
}

/// A well-formed week is the week of each date it holds, and of no other date.
pub proof fn law_week_is_bucket_of_its_dates(week: WeekKey, date: Date)
    requires
        week.wf(),
    ensures
        week.holds(date) <==> week_of(date) == Some(week),
{
}

} // verus!
