//! The store of work days, keyed by date, and the operations of the clock on it.
//!
//! The store is handed to every operation explicitly. It never reads the time:
//! each operation that needs the current instant takes it as `now`, so that one
//! sampled instant serves for all that a single request computes.

use crate::calendar::Date;
use crate::error::ClockError;
use crate::instant::Timestamp;
use crate::session::{day_total_minutes, Session, WorkDay, WorkDayView};
use std::collections::HashMap;
use vstd::prelude::*;
use vstd::std_specs::iter::IteratorSpec;

verus! {

/// The store: every recorded work day under the day number of its date, and the
/// date that counts as today.
#[derive(Clone, Debug, PartialEq, Eq)]
pub struct App {
    pub data: HashMap<i32, WorkDay>,
    pub today: Date,
}

/// The store as a mathematical value: a map from dates to days.
pub struct AppView {
    pub days: Map<Date, WorkDayView>,
    pub today: Date,
}

impl View for App {
    type V = AppView;

    open spec fn view(&self) -> AppView {
        AppView {
            days: Map::new(
                |date: Date| self.data@.contains_key(date.days),
                |date: Date| self.data@[date.days]@,
            ),
            today: self.today,
        }
    }
}

impl AppView {
    /// The store that holds the days of a list, with `today` as its current date.
    pub open spec fn of_records(records: Seq<WorkDayView>, today: Date) -> AppView {
        AppView { days: days_of(records), today }
    }

    /// A store is well formed when today is a date of the calendar and every day
    /// it holds is well formed and filed under its own date.
    pub open spec fn wf(self) -> bool {
        &&& self.today.wf()
        &&& forall|date: Date| #[trigger]
            self.days.contains_key(date) ==> self.days[date].wf() && self.days[date].date == date
    }

    /// The store with `today` as its current date, and with an empty day filed
    /// under it unless a day is filed there already.
    pub open spec fn ensure_today(self, today: Date) -> AppView {
        AppView {
            days: if self.days.contains_key(today) {
                self.days
            } else {
                self.days.insert(today, WorkDayView::empty(today))
            },
            today,
        }
    }

    /// The store after an attempt to clock in today at `now`.
    pub open spec fn after_clock_in(self, now: Timestamp) -> AppView {
        if self.days.contains_key(self.today) {
            AppView {
                days: self.days.insert(self.today, self.days[self.today].after_clock_in(now)),
                today: self.today,
            }
        } else {
            self
        }
    }

    /// What an attempt to clock in today at `now` reports.
    pub open spec fn clock_in_result(self, now: Timestamp) -> Result<Session, ClockError> {
        if self.days.contains_key(self.today) {
            self.days[self.today].clock_in_result(now)
        } else {
            Err(ClockError::NotFound)
        }
    }

    /// The store after an attempt to clock out today at `now`.
    pub open spec fn after_clock_out(self, now: Timestamp) -> AppView {
        if self.days.contains_key(self.today) {
            AppView {
                days: self.days.insert(self.today, self.days[self.today].after_clock_out(now)),
                today: self.today,
            }
        } else {
            self
        }
    }

    /// What an attempt to clock out today at `now` reports.
    pub open spec fn clock_out_result(self, now: Timestamp) -> Result<Session, ClockError> {
        if self.days.contains_key(self.today) {
            self.days[self.today].clock_out_result(now)
        } else {
            Err(ClockError::NotFound)
        }
    }

    /// Today's running session, or why there is none to give.
    pub open spec fn current(self) -> Result<Session, ClockError> {
        if self.days.contains_key(self.today) {
            self.days[self.today].current()
        } else {
            Err(ClockError::NotFound)
        }
    }

    /// Nanoseconds worked on `date` as seen at `now`; zero where no day is filed
    /// under that date.
    pub open spec fn nanos_on(self, date: Date, now: Timestamp) -> int {
        if self.days.contains_key(date) {
            self.days[date].total_nanos(now)
        } else {
            0
        }
    }
}

/// The stored days as mathematical values.
pub open spec fn views_of(records: Seq<WorkDay>) -> Seq<WorkDayView> {
    records.map_values(|day: WorkDay| day@)
}

/// The days of a list of filed days, without the dates under which they were
/// filed.
pub open spec fn days_filed(filed: Seq<(Date, WorkDay)>) -> Seq<WorkDay> {
    filed.map_values(|entry: (Date, WorkDay)| entry.1)
}

/// Whether every day of a list is filed under its own date.
pub open spec fn filed_rightly(filed: Seq<(Date, WorkDay)>) -> bool {
    forall|i: int| 0 <= i < filed.len() ==> (#[trigger] filed[i]).0 == filed[i].1.date
}

/// The days that were found stored, as mathematical values: none where nothing
/// was stored.
pub open spec fn stored_views(stored: Option<Vec<(Date, WorkDay)>>) -> Seq<WorkDayView> {
    match stored {
        Some(filed) => views_of(days_filed(filed@)),
        None => Seq::empty(),
    }
}

/// Whether what was found stored can be opened as a store: every day is filed
/// under its own date and is well formed, and no two days have the same date.
pub open spec fn stored_valid(stored: Option<Vec<(Date, WorkDay)>>) -> bool {
    &&& stored matches Some(filed) ==> filed_rightly(filed@)
    &&& records_valid(stored_views(stored))
}

/// Takes the days out of a list in which each comes with the date under which
/// it was filed. Fails with `CorruptData` where a day is filed under another date
/// than its own.
pub fn unfile(filed: Vec<(Date, WorkDay)>) -> (outcome: Result<Vec<WorkDay>, ClockError>)
    ensures
        match outcome {
            Ok(days) => filed_rightly(filed@) && days@ == days_filed(filed@),
            Err(error) => error == ClockError::CorruptData && !filed_rightly(filed@),
        },
{
    let mut days: Vec<WorkDay> = Vec::new();
    for entry in it: filed
        invariant
            it.seq() == filed@,
            days@ == days_filed(filed@.take(it.index() as int)),
            filed_rightly(filed@.take(it.index() as int)),
    {
        let ghost done = it.index() as int;
        assert(entry == filed@[done]);
        let (key, day) = entry;
        if key.days != day.date.days {
            return Err(ClockError::CorruptData);
        }
        days.push(day);
        proof {
            let next = filed@.take(done + 1);
            assert(days@ =~= days_filed(next));
            assert forall|i: int| 0 <= i < next.len() implies (#[trigger] next[i]).0
                == next[i].1.date by {
                if i < done {
                    assert(next[i] == filed@.take(done)[i]);
                }
            }
        }
    }
    assert(filed@.take(filed@.len() as int) =~= filed@);
    Ok(days)
}

/// Whether a list of days can be taken into a store: every day is well formed,
/// and no two of them have the same date.
pub open spec fn records_valid(records: Seq<WorkDayView>) -> bool {
    &&& forall|i: int| 0 <= i < records.len() ==> (#[trigger] records[i]).wf()
    &&& dates_differ(records)
}

/// Whether no two days of a list have the same date.
pub open spec fn dates_differ(records: Seq<WorkDayView>) -> bool {
    forall|i: int, j: int|
        0 <= i < j < records.len() ==> (#[trigger] records[i]).date != (#[trigger] records[j]).date
}

/// The days of a list, each filed under its date.
pub open spec fn days_of(records: Seq<WorkDayView>) -> Map<Date, WorkDayView>
    decreases records.len(),
{
    if records.len() == 0 {
        Map::empty()
    } else {
        days_of(records.drop_last()).insert(records.last().date, records.last())
    }
}

/// Whether a list holds exactly the days of a map, each once.
pub open spec fn lists_days(records: Seq<WorkDayView>, days: Map<Date, WorkDayView>) -> bool {
    &&& dates_differ(records)
    &&& forall|i: int|
        0 <= i < records.len() ==> days.contains_key((#[trigger] records[i]).date)
            && days[records[i].date] == records[i]
    &&& forall|date: Date| #[trigger]
        days.contains_key(date) ==> exists|i: int|
            0 <= i < records.len() && (#[trigger] records[i]).date == date
}

impl App {
    /// Opens the store for `today` from what was found stored: the stored days,
    /// each with the date under which it was filed, are taken in, or none where
    /// nothing was stored yet, and an empty day is filed under `today` unless one
    /// is filed there already. Together with the store comes whether a day was
    /// added, in which case the store is to be saved. Fails with `CorruptData`,
    /// and builds nothing, where the stored days are not valid: nothing is then to
    /// be saved over them.
    pub fn new(stored: Option<Vec<(Date, WorkDay)>>, today: Date) -> (outcome: Result<
        (App, bool),
        ClockError,
    >)
        ensures
            match outcome {
                Ok((app, added)) => {
                    &&& stored_valid(stored)
                    &&& app@ == AppView::of_records(stored_views(stored), today).ensure_today(today)
                    &&& added == !days_of(stored_views(stored)).contains_key(today)
                    &&& today.wf() ==> app@.wf()
                },
                Err(error) => error == ClockError::CorruptData && !stored_valid(stored),
            },
    {
        let records = match stored {
            Some(filed) => match unfile(filed) {
                Ok(days) => days,
                Err(error) => {
                    return Err(error);
                },
            },
            None => Vec::new(),
        };
        assert(views_of(records@) =~= stored_views(stored));
        match App::restore(records, today) {
            Ok(mut app) => {
                let added = app.ensure_today(today);
                Ok((app, added))
            },
            Err(error) => Err(error),
        }
    }

    /// Makes `today` the current date and files an empty day under it, unless a
    /// day is filed there already: that day, and every other, is left as it is.
    /// Returns whether a day was added.
    pub fn ensure_today(&mut self, today: Date) -> (added: bool)
        ensures
            final(self)@ == old(self)@.ensure_today(today),
            added == !old(self)@.days.contains_key(today),
            old(self)@.wf() && today.wf() ==> final(self)@.wf(),
    {
        self.today = today;
        if self.data.contains_key(&today.days) {
            assert(self@.days =~= old(self)@.days);
            false
        } else {
            self.data.insert(today.days, WorkDay::new(today));
            assert(self@.days =~= old(self)@.days.insert(today, WorkDayView::empty(today)));
            true
        }
    }

    /// Takes stored days into a store whose current date is `today`. Fails with
    /// `CorruptData`, and builds nothing, where a day is not well formed or two
    /// days have the same date.
    pub fn restore(records: Vec<WorkDay>, today: Date) -> (outcome: Result<App, ClockError>)
        ensures
            match outcome {
                Ok(app) => {
                    &&& records_valid(views_of(records@))
                    &&& app@ == AppView::of_records(views_of(records@), today)
                    &&& today.wf() ==> app@.wf()
                },
                Err(error) => error == ClockError::CorruptData && !records_valid(
                    views_of(records@),
                ),
            },
    {
        let ghost all = views_of(records@);
        let mut app = App { data: HashMap::new(), today };
        assert(app@.days =~= days_of(all.take(0)));
        for day in it: records
            invariant
                it.seq() == records@,
                all == views_of(records@),
                app.today == today,
                app@.days == days_of(all.take(it.index() as int)),
                records_valid(all.take(it.index() as int)),
                forall|date: Date| #[trigger]
                    app@.days.contains_key(date) ==> {
                        &&& app@.days[date].wf()
                        &&& app@.days[date].date == date
                        &&& exists|j: int|
                            0 <= j < it.index() && (#[trigger] all[j]).date == date
                    },
        {
            let ghost done = it.index() as int;
            let ghost seen = all.take(done);
            let ghost next = all.take(done + 1);
            assert(day@ == all[done]);
            assert(next.drop_last() =~= seen);
            assert(next.last() == all[done]);
            if !day.is_valid() || app.data.contains_key(&day.date.days) {
                proof {
                    if !day@.wf() {
                        assert(!all[done].wf());
                    } else {
                        assert(app@.days.contains_key(day@.date));
                        let j = choose|j: int|
                            0 <= j < done && (#[trigger] all[j]).date == day@.date;
                        assert(all[j].date == all[done].date);
                    }
                }
                return Err(ClockError::CorruptData);
            }
            let ghost before = app@.days;
            let key: i32 = day.date.days;
            app.data.insert(key, day);
            proof {
                assert(app@.days =~= before.insert(all[done].date, all[done]));
                assert forall|i: int| 0 <= i < next.len() implies (#[trigger] next[i]).wf() by {
                    if i < done {
                        assert(next[i] == seen[i]);
                    }
                }
                assert forall|i: int, j: int| 0 <= i < j < next.len() implies
                    (#[trigger] next[i]).date != (#[trigger] next[j]).date by {
                    if j < done {
                        assert(next[i] == seen[i] && next[j] == seen[j]);
                    } else {
                        assert(next[i] == all[i]);
                        if all[i].date == all[done].date {
                            assert(before.contains_key(all[done].date)) by {
                                lemma_days_of_holds_each(seen, i);
                            }
                        }
                    }
                }
            }
        }
        assert(all.take(all.len() as int) =~= all);
        Ok(app)
    }

    /// The days of the store as a list, each once, in no particular order: what
    /// `restore` takes back.
    pub fn records(&self) -> (records: Vec<WorkDay>)
        requires
            self@.wf(),
        ensures
            lists_days(views_of(records@), self@.days),
    {
        let dates = self.list_days();
        let mut records: Vec<WorkDay> = Vec::new();
        let mut i: usize = 0;
        while i < dates.len()
            invariant
                i <= dates.len(),
                self@.wf(),
                dates@.no_duplicates(),
                forall|date: Date| dates@.contains(date) <==> self@.days.contains_key(date),
                records.len() == i,
                forall|j: int|
                    0 <= j < i ==> (#[trigger] records@[j])@ == self@.days[dates@[j]]
                        && records@[j]@.date == dates@[j],
            decreases dates.len() - i,
        {
            let date = dates[i];
            assert(dates@.contains(date));
            assert(self@.days.contains_key(date));
            match self.data.get(&date.days) {
                Some(day) => {
                    records.push(day.duplicate());
                },
                None => {},
            }
            i += 1;
        }
        proof {
            let views = views_of(records@);
            assert forall|a: int, b: int| 0 <= a < b < views.len() implies
                (#[trigger] views[a]).date != (#[trigger] views[b]).date by {
                assert(views[a] == records@[a]@ && views[b] == records@[b]@);
            }
            assert forall|j: int| 0 <= j < views.len() implies self@.days.contains_key(
                (#[trigger] views[j]).date,
            ) && self@.days[views[j].date] == views[j] by {
                assert(views[j] == records@[j]@);
                assert(dates@.contains(dates@[j]));
            }
            assert forall|date: Date| #[trigger] self@.days.contains_key(date) implies
                exists|j: int| 0 <= j < views.len() && (#[trigger] views[j]).date == date by {
                assert(dates@.contains(date));
                let j = choose|j: int| 0 <= j < dates.len() && dates@[j] == date;
                assert(views[j] == records@[j]@);
            }
        }
        records
    }

    /// Makes `today` the current date, files an empty day under it if none is
    /// filed there, and gives the day that is then filed under it.
    pub fn get_or_create_today(&mut self, today: Date) -> (outcome: Result<&WorkDay, ClockError>)
        ensures
            final(self)@ == old(self)@.ensure_today(today),
            outcome matches Ok(day) && day@ == final(self)@.days[today],
    {
        self.ensure_today(today);
        assert(self@.days.contains_key(today));
        match self.data.get(&today.days) {
            Some(day) => Ok(day),
            None => Err(ClockError::NotFound),
        }
    }

    /// Tells whether the store is well formed.
    pub fn is_valid(&self) -> (valid: bool)
        ensures
            valid == self@.wf(),
    {
        if !self.today.is_valid() {
            return false;
        }
        let dates = self.list_days();
        let mut i: usize = 0;
        while i < dates.len()
            invariant
                i <= dates.len(),
                forall|date: Date| dates@.contains(date) <==> self@.days.contains_key(date),
                forall|j: int|
                    0 <= j < i ==> {
                        &&& self@.days[#[trigger] dates@[j]].wf()
                        &&& self@.days[dates@[j]].date == dates@[j]
                    },
            decreases dates.len() - i,
        {
            let date = dates[i];
            assert(dates@.contains(date));
            match self.data.get(&date.days) {
                Some(day) => {
                    if !day.is_valid() || day.date.days != date.days {
                        assert(self@.days.contains_key(date));
                        return false;
                    }
                },
                None => {},
            }
            i += 1;
        }
        assert forall|date: Date| #[trigger] self@.days.contains_key(date) implies
            self@.days[date].wf() && self@.days[date].date == date by {
            assert(dates@.contains(date));
            let j = choose|j: int| 0 <= j < dates.len() && dates@[j] == date;
            assert(self@.days[dates@[j]].wf());
        }
        true
    }

    /// The day filed under `date`. Fails with `NotFound` where there is none.
    pub fn get_day(&self, date: Date) -> (outcome: Result<&WorkDay, ClockError>)
        ensures
            match outcome {
                Ok(day) => self@.days.contains_key(date) && day@ == self@.days[date],
                Err(error) => error == ClockError::NotFound && !self@.days.contains_key(date),
            },
    {
        match self.data.get(&date.days) {
            Some(day) => Ok(day),
            None => Err(ClockError::NotFound),
        }
    }

    /// The dates under which a day is filed, each once, in no particular order.
    pub fn list_days(&self) -> (dates: Vec<Date>)
        ensures
            dates@.no_duplicates(),
            forall|date: Date| dates@.contains(date) <==> self@.days.contains_key(date),
    {
        let mut dates: Vec<Date> = Vec::new();
        let ghost keys: Seq<i32> = self.data.keys().remaining().unref();
        for key in it: self.data.keys()
            invariant
                it.seq().unref() == keys,
                dates.len() == it.index(),
                forall|j: int| 0 <= j < dates.len() ==> (#[trigger] dates@[j]).days == keys[j],
        {
            dates.push(Date { days: *key });
        }
        assert(keys.no_duplicates());
        assert(keys.to_set() == self.data@.dom());
        assert forall|date: Date| dates@.contains(date) <==> self@.days.contains_key(date) by {
            if dates@.contains(date) {
                let j = choose|j: int| 0 <= j < dates.len() && dates@[j] == date;
                assert(keys.contains(keys[j]));
                assert(keys.to_set().contains(date.days));
            }
            if self@.days.contains_key(date) {
                assert(keys.to_set().contains(date.days));
                let j = choose|j: int| 0 <= j < keys.len() && keys[j] == date.days;
                assert(dates@[j] == date);
            }
        }
        dates
    }

    /// Tells whether a session is open today. Fails with `NotFound` where no day
    /// is filed under today's date.
    pub fn has_active_session(&self) -> (outcome: Result<bool, ClockError>)
        ensures
            match outcome {
                Ok(active) => self@.days.contains_key(self@.today) && active
                    == self@.days[self@.today].is_active(),
                Err(error) => error == ClockError::NotFound && !self@.days.contains_key(
                    self@.today,
                ),
            },
    {
        match self.data.get(&self.today.days) {
            Some(day) => Ok(day.is_active()),
            None => Err(ClockError::NotFound),
        }
    }

    /// Today's running session. Fails with `NoActiveSession` where today is idle,
    /// and with `NotFound` where no day is filed under today's date.
    pub fn get_active_session(&self) -> (outcome: Result<Session, ClockError>)
        ensures
            outcome == self@.current(),
    {
        match self.data.get(&self.today.days) {
            Some(day) => day.current_session(),
            None => Err(ClockError::NotFound),
        }
    }

    /// Whole minutes worked on `date`, as seen at `now`. Fails with `NotFound`
    /// where no day is filed under that date.
    pub fn get_total_minutes_from_day(&self, date: Date, now: Timestamp) -> (outcome: Result<
        i128,
        ClockError,
    >)
        requires
            self@.wf(),
            now.wf(),
        ensures
            match outcome {
                Ok(total) => {
                    &&& self@.days.contains_key(date)
                    &&& total == self@.days[date].total_minutes(now)
                },
                Err(error) => error == ClockError::NotFound && !self@.days.contains_key(date),
            },
    {
        match self.data.get(&date.days) {
            Some(day) => {
                assert(self@.days.contains_key(date));
                Ok(day_total_minutes(day, now))
            },
            None => Err(ClockError::NotFound),
        }
    }

    /// Clocks in today at `now`. Where today is idle, a new open session is
    /// appended to it and returned. Where a session is open, nothing changes and
    /// the attempt fails with `AlreadyActive`; where no day is filed under today's
    /// date, it fails with `NotFound`.
    pub fn create_session(&mut self, now: Timestamp) -> (outcome: Result<Session, ClockError>)
        ensures
            final(self)@ == old(self)@.after_clock_in(now),
            outcome == old(self)@.clock_in_result(now),
            old(self)@.wf() && now.wf() ==> final(self)@.wf(),
    {
        let key: i32 = self.today.days;
        let active = match self.data.get(&key) {
            Some(day) => day.is_active(),
            None => {
                return Err(ClockError::NotFound);
            },
        };
        if active {
            assert(self@.days =~= old(self)@.after_clock_in(now).days);
            return Err(ClockError::AlreadyActive);
        }
        match self.data.remove(&key) {
            Some(mut day) => {
                let outcome = day.clock_in(now);
                self.data.insert(key, day);
                assert(self@.days =~= old(self)@.after_clock_in(now).days);
                outcome
            },
            None => Err(ClockError::NotFound),
        }
    }

    /// Clocks out today at `now`. Where a session is open, it is closed at `now`
    /// and returned, and today becomes idle. Where today is idle, nothing changes
    /// and the attempt fails with `NoActiveSession`; where no day is filed under
    /// today's date, or today names a session that it does not hold, it fails with
    /// `NotFound`.
    pub fn end_active_session(&mut self, now: Timestamp) -> (outcome: Result<Session, ClockError>)
        ensures
            final(self)@ == old(self)@.after_clock_out(now),
            outcome == old(self)@.clock_out_result(now),
            old(self)@.wf() && now.wf() ==> final(self)@.wf(),
    {
        let key: i32 = self.today.days;
        let ready = match self.data.get(&key) {
            Some(day) => day.current_session(),
            None => {
                return Err(ClockError::NotFound);
            },
        };
        match ready {
            Err(error) => {
                assert(self@.days =~= old(self)@.after_clock_out(now).days);
                Err(error)
            },
            Ok(_) => match self.data.remove(&key) {
                Some(mut day) => {
                    let outcome = day.clock_out(now);
                    self.data.insert(key, day);
                    assert(self@.days =~= old(self)@.after_clock_out(now).days);
                    outcome
                },
                None => Err(ClockError::NotFound),
            },
        }
    }
}

/// A list of days with different dates files each of its days under that day's
/// own date.
pub proof fn lemma_days_of_holds_each(records: Seq<WorkDayView>, i: int)
    requires
        dates_differ(records),
        0 <= i < records.len(),
    ensures
        days_of(records).contains_key(records[i].date),
        days_of(records)[records[i].date] == records[i],
    decreases records.len(),
{
    if i < records.len() - 1 {
        let earlier = records.drop_last();
        assert(earlier[i] == records[i]);
        assert forall|a: int, b: int| 0 <= a < b < earlier.len() implies
            (#[trigger] earlier[a]).date != (#[trigger] earlier[b]).date by {
            assert(earlier[a] == records[a] && earlier[b] == records[b]);
        }
        lemma_days_of_holds_each(earlier, i);
        assert(records[i].date != records[records.len() - 1].date);
    }
}

/// Every date under which a list files a day is the date of one of its days.
pub proof fn lemma_days_of_holds_no_other(records: Seq<WorkDayView>, date: Date)
    requires
        days_of(records).contains_key(date),
    ensures
        exists|i: int| 0 <= i < records.len() && (#[trigger] records[i]).date == date,
    decreases records.len(),
{
    if records.len() > 0 {
        let earlier = records.drop_last();
        if records.last().date == date {
            assert(records[records.len() - 1].date == date);
        } else {
            lemma_days_of_holds_no_other(earlier, date);
            let i = choose|i: int| 0 <= i < earlier.len() && (#[trigger] earlier[i]).date == date;
            assert(records[i] == earlier[i]);
        }
    }
}

/// Writing a store out as a list and taking the list back gives the same store:
/// a list that holds exactly the days of a well-formed store is accepted, and
/// files the same day under every date.
pub proof fn law_records_restore(app: AppView, records: Seq<WorkDayView>)
    requires
        app.wf(),
        lists_days(records, app.days),
    ensures
        records_valid(records),
        days_of(records) == app.days,
{
    assert forall|date: Date|
        days_of(records).contains_key(date) <==> app.days.contains_key(date) by {
        if days_of(records).contains_key(date) {
            lemma_days_of_holds_no_other(records, date);
            let i = choose|i: int| 0 <= i < records.len() && (#[trigger] records[i]).date == date;
            assert(app.days.contains_key(records[i].date));
        }
        if app.days.contains_key(date) {
            let i = choose|i: int| 0 <= i < records.len() && (#[trigger] records[i]).date == date;
            lemma_days_of_holds_each(records, i);
        }
    }
    assert forall|date: Date| days_of(records).contains_key(date) implies days_of(records)[date]
        == app.days[date] by {
        lemma_days_of_holds_no_other(records, date);
        let i = choose|i: int| 0 <= i < records.len() && (#[trigger] records[i]).date == date;
        lemma_days_of_holds_each(records, i);
    }
    assert(days_of(records) =~= app.days);
    assert forall|i: int| 0 <= i < records.len() implies (#[trigger] records[i]).wf() by {
        assert(app.days.contains_key(records[i].date));
    }
}

/// Ensuring today never drops or alters what is recorded: every day that was
/// filed stays filed as it was, and ensuring the same date twice is the same as
/// ensuring it once.
pub proof fn law_ensure_today_keeps_records(app: AppView, today: Date)
    ensures
        app.ensure_today(today).days.contains_key(today),
        forall|date: Date| #[trigger]
            app.days.contains_key(date) ==> app.ensure_today(today).days.contains_key(date)
                && app.ensure_today(today).days[date] == app.days[date],
        app.days.contains_key(today) ==> app.ensure_today(today).days == app.days,
        app.ensure_today(today).ensure_today(today) == app.ensure_today(today),
{
}

} // verus!
