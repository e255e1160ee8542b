//! Totals by week: which weeks there is work to report on, and how much.

use crate::calendar::{law_week_is_bucket_of_its_dates, week_bucket, week_of, Date, WeekKey};
use crate::instant::{whole_minutes, Timestamp};
use crate::session::{day_tally, most_minutes, WorkDayView};
use crate::tally::Tally;
use crate::store::{App, AppView};
use vstd::prelude::*;

verus! {

impl AppView {
    /// Whether work is recorded on `date`, and `week` is the week of that date.
    pub open spec fn works_in_week(self, date: Date, week: WeekKey) -> bool {
        &&& self.days.contains_key(date)
        &&& self.days[date].sessions.len() > 0
        &&& week_of(date) == Some(week)
    }

    /// Whether `week` is offered for a weekly total: some day with at least one
    /// session falls into it. Days without sessions offer nothing.
    pub open spec fn offers_week(self, week: WeekKey) -> bool {
        exists|date: Date| self.works_in_week(date, week)
    }

    /// The store with `day` filed under `date`, in place of what was filed there.
    pub open spec fn with_day(self, date: Date, day: WorkDayView) -> AppView {
        AppView { days: self.days.insert(date, day), today: self.today }
    }

    /// Nanoseconds worked on the `count` dates from day number `first` on, as
    /// seen at `now`.
    pub open spec fn nanos_from(self, first: int, count: nat, now: Timestamp) -> int
        decreases count,
    {
        if count == 0 {
            0
        } else {
            self.nanos_from(first, (count - 1) as nat, now) + self.nanos_on(
                Date { days: (first + count - 1) as i32 },
                now,
            )
        }
    }

    /// Nanoseconds worked in `week`, as seen at `now`: the time of all sessions of
    /// its seven dates, Sunday to Saturday, added up. These are the days whose
    /// week is `week`; to a key that is not well formed no day belongs.
    pub open spec fn week_nanos(self, week: WeekKey, now: Timestamp) -> int {
        if week.wf() {
            self.nanos_from(week.sunday.days as int, 7, now)
        } else {
            0
        }
    }

    /// Whole minutes worked in `week`, as seen at `now`: the time of all sessions
    /// of the week is added up first, and the sum is then truncated to whole
    /// minutes.
    pub open spec fn week_total(self, week: WeekKey, now: Timestamp) -> int {
        whole_minutes(self.week_nanos(week, now))
    }
}

/// The most minutes that the tally of `count` well-formed days can hold, in
/// either direction, however many sessions each of them holds.
pub open spec fn most_minutes_of_days(count: int) -> int {
    5_086_649_127_954_716_266_551_507_842_401 * count
}

/// Tells whether `week` occurs in `weeks`.
pub fn lists_week(weeks: &Vec<WeekKey>, week: &WeekKey) -> (found: bool)
    ensures
        found == weeks@.contains(*week),
{
    let mut i: usize = 0;
    while i < weeks.len()
        invariant
            i <= weeks.len(),
            forall|j: int| 0 <= j < i ==> weeks@[j] != *week,
        decreases weeks.len() - i,
    {
        if weeks[i].same_as(week) {
            return true;
        }
        i += 1;
    }
    false
}

/// The weeks for which a weekly total can be asked: the week of every day that
/// holds at least one session, each week once, in no particular order.
pub fn week_options(app: &App) -> (weeks: Vec<WeekKey>)
    ensures
        weeks@.no_duplicates(),
        forall|week: WeekKey| weeks@.contains(week) <==> app@.offers_week(week),
{
    let dates = app.list_days();
    let mut weeks: Vec<WeekKey> = Vec::new();
    let mut i: usize = 0;
    while i < dates.len()
        invariant
            i <= dates.len(),
            forall|date: Date| dates@.contains(date) <==> app@.days.contains_key(date),
            weeks@.no_duplicates(),
            forall|week: WeekKey|
                weeks@.contains(week) <==> exists|j: int|
                    0 <= j < i && app@.works_in_week(#[trigger] dates@[j], week),
        decreases dates.len() - i,
    {
        let date = dates[i];
        assert(dates@.contains(date));
        let ghost before = weeks@;
        let mut added: Option<WeekKey> = None;
        match app.get_day(date) {
            Ok(day) => {
                if day.sessions.len() > 0 {
                    match week_bucket(date) {
                        Some(week) => {
                            if !lists_week(&weeks, &week) {
                                weeks.push(week);
                                added = Some(week);
                            }
                        },
                        None => {},
                    }
                }
            },
            Err(_) => {},
        }
        proof {
            assert forall|week: WeekKey|
                weeks@.contains(week) <==> exists|j: int|
                    0 <= j < i + 1 && app@.works_in_week(#[trigger] dates@[j], week) by {
                if weeks@.contains(week) {
                    if before.contains(week) {
                        let j = choose|j: int|
                            0 <= j < i && app@.works_in_week(#[trigger] dates@[j], week);
                        assert(app@.works_in_week(dates@[j], week));
                    } else {
                        assert(added == Some(week));
                        assert(app@.works_in_week(dates@[i as int], week));
                    }
                }
                if exists|j: int| 0 <= j < i + 1 && app@.works_in_week(#[trigger] dates@[j], week) {
                    let j = choose|j: int|
                        0 <= j < i + 1 && app@.works_in_week(#[trigger] dates@[j], week);
                    if j < i {
                        assert(before.contains(week));
                        assert(weeks@.contains(week)) by {
                            let at = choose|at: int| 0 <= at < before.len() && before[at] == week;
                            assert(weeks@[at] == week);
                        }
                    } else {
                        assert(week_of(date) == Some(week));
                        if added is Some {
                            assert(weeks@[weeks.len() - 1] == week);
                        } else {
                            assert(before.contains(week));
                        }
                    }
                }
            }
        }
        i += 1;
    }
    proof {
        assert forall|week: WeekKey| weeks@.contains(week) <==> app@.offers_week(week) by {
            if weeks@.contains(week) {
                let j = choose|j: int| 0 <= j < i && app@.works_in_week(#[trigger] dates@[j], week);
                assert(app@.works_in_week(dates@[j], week));
            }
            if app@.offers_week(week) {
                let date = choose|date: Date| app@.works_in_week(date, week);
                assert(dates@.contains(date));
                let j = choose|j: int| 0 <= j < dates.len() && dates@[j] == date;
                assert(app@.works_in_week(dates@[j], week));
            }
        }
    }
    weeks
}

/// Whole minutes worked in `week`, as seen at `now`: the time of all sessions of
/// the days that fall into it, added up and then truncated to whole minutes.
pub fn week_total_minutes(app: &App, week: &WeekKey, now: Timestamp) -> (total: i128)
    requires
        app@.wf(),
        now.wf(),
    ensures
        total == app@.week_total(*week, now),
{
    if !week.is_valid() {
        return 0;
    }
    let mut tally = Tally::zero();
    let mut i: i32 = 0;
    while i < 7
        invariant
            0 <= i <= 7,
            week.wf(),
            app@.wf(),
            now.wf(),
            tally.wf(),
            tally.value() == app@.nanos_from(week.sunday.days as int, i as nat, now),
            -most_minutes_of_days(i as int) <= tally.minutes <= most_minutes_of_days(i as int),
        decreases 7 - i,
    {
        let date = Date { days: week.sunday.days + i };
        match app.get_day(date) {
            Ok(day) => {
                let worked = day_tally(day, now);
                assert(most_minutes(day.sessions.len() as int) + 1 <= most_minutes_of_days(1));
                tally = tally.plus(worked);
            },
            Err(_) => {},
        }
        i += 1;
    }
    tally.whole_minutes()
}

/// Filing `day` under `date` changes the time of the week of `date` by what the
/// time of that date changes, and the time of no other week: each day counts
/// toward the week of its date, once, and toward no other.
pub proof fn law_day_counts_toward_its_week(
    app: AppView,
    date: Date,
    day: WorkDayView,
    week: WeekKey,
    now: Timestamp,
)
    ensures
        app.with_day(date, day).week_nanos(week, now) == app.week_nanos(week, now) + (if week_of(
            date,
        ) == Some(week) {
            day.total_nanos(now) - app.nanos_on(date, now)
        } else {
            0
        }),
{
    if week.wf() {
        law_week_is_bucket_of_its_dates(week, date);
        lemma_nanos_from_with_day(app, date, day, week.sunday.days as int, 7, now);
    }
}

/// Filing `day` under `date` changes the time of a run of dates by what the time
/// of that date changes, if the run holds the date, and not at all if it does
/// not.
pub proof fn lemma_nanos_from_with_day(
    app: AppView,
    date: Date,
    day: WorkDayView,
    first: int,
    count: nat,
    now: Timestamp,
)
    requires
        i32::MIN <= first,
        first + count <= i32::MAX,
    ensures
        app.with_day(date, day).nanos_from(first, count, now) == app.nanos_from(
            first,
            count,
            now,
        ) + (if first <= date.days < first + count {
            day.total_nanos(now) - app.nanos_on(date, now)
        } else {
            0
        }),
    decreases count,
{
    if count > 0 {
        lemma_nanos_from_with_day(app, date, day, first, (count - 1) as nat, now);
        let last = Date { days: (first + count - 1) as i32 };
        if last != date {
            assert(app.with_day(date, day).nanos_on(last, now) == app.nanos_on(last, now));
        }
    }
}

/// A week is not offered where every day of the store that falls into it is
/// without sessions.
pub proof fn law_week_without_sessions_is_not_offered(app: AppView, week: WeekKey)
    requires
        forall|date: Date|
            app.days.contains_key(date) && week_of(date) == Some(week)
                ==> (#[trigger] app.days[date]).sessions.len() == 0,
    ensures
        !app.offers_week(week),
{
    if app.offers_week(week) {
        let worked = choose|worked: Date| app.works_in_week(worked, week);
        assert(app.days[worked].sessions.len() == 0);
    }
}

/// A day without sessions offers no week: filing an empty day for today does not
/// change which weeks are offered.
pub proof fn law_empty_day_offers_no_week(app: AppView, today: Date, week: WeekKey)
    ensures
        app.ensure_today(today).offers_week(week) == app.offers_week(week),
{
    let more = app.ensure_today(today);
    if app.offers_week(week) {
        let worked = choose|worked: Date| app.works_in_week(worked, week);
        assert(more.works_in_week(worked, week));
    }
    if more.offers_week(week) {
        let worked = choose|worked: Date| more.works_in_week(worked, week);
        assert(app.works_in_week(worked, week));
    }
}

} // verus!
