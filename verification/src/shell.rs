//! The decisions of the interactive menu: which choices are shown, and what each
//! choice does to the store and answers to the user.
//!
//! Nothing here reads input, prints or saves. The loop around it shows the menu,
//! hands the chosen entry and the current instant to `App::respond`, shows the
//! reply, and saves the store whenever the reply asks for it.

use crate::calendar::{Date, WeekKey};
use crate::error::ClockError;
use crate::instant::{hours_minutes_of, split_hours_minutes, HoursMinutes, Timestamp};
use crate::report::{week_options, week_total_minutes};
use crate::session::{law_no_time_elapsed_at_clock_in, Session};
use crate::store::{App, AppView};
use vstd::prelude::*;

verus! {

/// An entry of the menu.
#[derive(Clone, Copy, Debug, PartialEq, Eq, Structural)]
pub enum MenuChoice {
    ClockIn,
    ClockOut,
    ViewCurrentSession,
    ViewTodayTotal,
    SelectDay,
    SelectWeek,
    Exit,
}

impl MenuChoice {
    /// Whether the entry is shown, given whether a session is open today: clocking
    /// in and today's total only while idle, clocking out and the running session
    /// only while active, the rest always.
    pub open spec fn shown(self, active: bool) -> bool {
        match self {
            MenuChoice::ClockIn => !active,
            MenuChoice::ClockOut => active,
            MenuChoice::ViewCurrentSession => active,
            MenuChoice::ViewTodayTotal => !active,
            MenuChoice::SelectDay => true,
            MenuChoice::SelectWeek => true,
            MenuChoice::Exit => true,
        }
    }

    /// The words under which the entry is shown.
    pub open spec fn label_text(self) -> Seq<char> {
        match self {
            MenuChoice::ClockIn => "Clock In"@,
            MenuChoice::ClockOut => "Clock Out"@,
            MenuChoice::ViewCurrentSession => "View Current Session's Total Working Time"@,
            MenuChoice::ViewTodayTotal => "View Today's Total Working Time"@,
            MenuChoice::SelectDay => "Select Day"@,
            MenuChoice::SelectWeek => "Select Week"@,
            MenuChoice::Exit => "Exit"@,
        }
    }

    /// Gives the words under which the entry is shown.
    pub fn label(&self) -> (text: &'static str)
        ensures
            text@ == self.label_text(),
    {
        match self {
            MenuChoice::ClockIn => "Clock In",
            MenuChoice::ClockOut => "Clock Out",
            MenuChoice::ViewCurrentSession => "View Current Session's Total Working Time",
            MenuChoice::ViewTodayTotal => "View Today's Total Working Time",
            MenuChoice::SelectDay => "Select Day",
            MenuChoice::SelectWeek => "Select Week",
            MenuChoice::Exit => "Exit",
        }
    }
}

/// The entries of the menu in the order in which it lists them, given whether a
/// session is open today.
pub open spec fn menu_of(active: bool) -> Seq<MenuChoice> {
    if active {
        seq![
            MenuChoice::ClockOut,
            MenuChoice::ViewCurrentSession,
            MenuChoice::SelectDay,
            MenuChoice::SelectWeek,
            MenuChoice::Exit,
        ]
    } else {
        seq![
            MenuChoice::ClockIn,
            MenuChoice::ViewTodayTotal,
            MenuChoice::SelectDay,
            MenuChoice::SelectWeek,
            MenuChoice::Exit,
        ]
    }
}

/// Lists the entries that the menu shows, given whether a session is open today.
pub fn menu_options(active: bool) -> (options: Vec<MenuChoice>)
    ensures
        options@ == menu_of(active),
        forall|choice: MenuChoice| options@.contains(choice) <==> choice.shown(active),
{
    let mut options: Vec<MenuChoice> = Vec::new();
    if active {
        options.push(MenuChoice::ClockOut);
        options.push(MenuChoice::ViewCurrentSession);
    } else {
        options.push(MenuChoice::ClockIn);
        options.push(MenuChoice::ViewTodayTotal);
    }
    options.push(MenuChoice::SelectDay);
    options.push(MenuChoice::SelectWeek);
    options.push(MenuChoice::Exit);
    proof {
        assert(options@ =~= menu_of(active));
        law_menu_shows_what_fits(active);
    }
    options
}

/// The menu lists exactly the entries that fit the state of the day.
pub proof fn law_menu_shows_what_fits(active: bool)
    ensures
        forall|choice: MenuChoice| menu_of(active).contains(choice) <==> choice.shown(active),
        menu_of(active).no_duplicates(),
{
    let menu = menu_of(active);
    assert forall|choice: MenuChoice| menu.contains(choice) <==> choice.shown(active) by {
        if choice.shown(active) {
            match choice {
                MenuChoice::ClockIn => assert(menu[0] == choice),
                MenuChoice::ClockOut => assert(menu[0] == choice),
                MenuChoice::ViewCurrentSession => assert(menu[1] == choice),
                MenuChoice::ViewTodayTotal => assert(menu[1] == choice),
                MenuChoice::SelectDay => assert(menu[2] == choice),
                MenuChoice::SelectWeek => assert(menu[3] == choice),
                MenuChoice::Exit => assert(menu[4] == choice),
            }
        }
    }
}

/// What the program answers to a choice.
#[derive(Clone, Debug, PartialEq, Eq)]
pub enum Reply {
    /// A session was started; the store has changed.
    Started(Session),
    /// The running session was closed, after the time given; the store has changed.
    Stopped(Session, HoursMinutes),
    /// The running session has lasted the time given.
    Elapsed(HoursMinutes),
    /// Today's sessions add up to the time given.
    DayTotal(HoursMinutes),
    /// The user is to pick one of these dates, for `report_day`.
    ChooseDay(Vec<Date>),
    /// The user is to pick one of these weeks, for `report_week`.
    ChooseWeek(Vec<WeekKey>),
    /// The program is to end.
    Quit,
    /// The choice could not be carried out; nothing has changed.
    Failed(ClockError),
}

impl Reply {
    /// Whether the reply reports a change of the store, which is then to be saved.
    pub open spec fn asks_to_save(self) -> bool {
        self is Started || self is Stopped
    }

    /// Tells whether the store is to be saved.
    pub fn needs_save(&self) -> (save: bool)
        ensures
            save == self.asks_to_save(),
    {
        match self {
            Reply::Started(_) => true,
            Reply::Stopped(_, _) => true,
            _ => false,
        }
    }
}

impl AppView {
    /// The store after a choice made at `now`: clocking in and out act on today,
    /// every other choice leaves the store as it is.
    pub open spec fn after_choice(self, choice: MenuChoice, now: Timestamp) -> AppView {
        match choice {
            MenuChoice::ClockIn => self.after_clock_in(now),
            MenuChoice::ClockOut => self.after_clock_out(now),
            _ => self,
        }
    }

    /// Whether `reply` is the answer to a choice made at `now` on this store.
    pub open spec fn answers(self, choice: MenuChoice, now: Timestamp, reply: Reply) -> bool {
        match choice {
            MenuChoice::ClockIn => match self.clock_in_result(now) {
                Ok(session) => reply == Reply::Started(session),
                Err(error) => reply == Reply::Failed(error),
            },
            MenuChoice::ClockOut => match self.clock_out_result(now) {
                Ok(session) => reply == Reply::Stopped(
                    session,
                    hours_minutes_of(session.minutes(now)),
                ),
                Err(error) => reply == Reply::Failed(error),
            },
            MenuChoice::ViewCurrentSession => match self.current() {
                Ok(session) => reply == Reply::Elapsed(hours_minutes_of(session.minutes(now))),
                Err(error) => reply == Reply::Failed(error),
            },
            MenuChoice::ViewTodayTotal => if self.days.contains_key(self.today) {
                reply == Reply::DayTotal(
                    hours_minutes_of(self.days[self.today].total_minutes(now)),
                )
            } else {
                reply == Reply::Failed(ClockError::NotFound)
            },
            MenuChoice::SelectDay => {
                &&& reply matches Reply::ChooseDay(dates)
                &&& dates@.no_duplicates()
                &&& forall|date: Date| dates@.contains(date) <==> self.days.contains_key(date)
            },
            MenuChoice::SelectWeek => {
                &&& reply matches Reply::ChooseWeek(weeks)
                &&& weeks@.no_duplicates()
                &&& forall|week: WeekKey| weeks@.contains(week) <==> self.offers_week(week)
            },
            MenuChoice::Exit => reply == Reply::Quit,
        }
    }
}

impl App {
    /// The entries that the menu shows for today. Fails with `NotFound` where no
    /// day is filed under today's date.
    pub fn menu(&self) -> (outcome: Result<Vec<MenuChoice>, ClockError>)
        ensures
            match outcome {
                Ok(options) => {
                    &&& self@.days.contains_key(self@.today)
                    &&& options@ == menu_of(self@.days[self@.today].is_active())
                },
                Err(error) => {
                    &&& error == ClockError::NotFound
                    &&& !self@.days.contains_key(self@.today)
                },
            },
    {
        match self.has_active_session() {
            Ok(active) => Ok(menu_options(active)),
            Err(error) => Err(error),
        }
    }

    /// Carries out a choice of the menu at `now` and answers it. Clocking in and
    /// out change today as `create_session` and `end_active_session` do; no other
    /// choice changes the store. The reply asks for a save exactly when the store
    /// has changed.
    pub fn respond(&mut self, choice: MenuChoice, now: Timestamp) -> (reply: Reply)
        requires
            old(self)@.wf(),
            now.wf(),
        ensures
            final(self)@.wf(),
            final(self)@ == old(self)@.after_choice(choice, now),
            old(self)@.answers(choice, now, reply),
            reply.asks_to_save() <==> final(self)@ != old(self)@,
    {
        match choice {
            MenuChoice::ClockIn => match self.create_session(now) {
                Ok(session) => {
                    proof {
                        lemma_clock_in_changes_store(old(self)@, now);
                    }
                    Reply::Started(session)
                },
                Err(error) => {
                    proof {
                        lemma_failed_clock_changes_nothing(old(self)@, now);
                    }
                    Reply::Failed(error)
                },
            },
            MenuChoice::ClockOut => match self.end_active_session(now) {
                Ok(session) => {
                    proof {
                        lemma_clock_out_changes_store(old(self)@, now);
                    }
                    let minutes: i64 = session.elapsed_minutes(now);
                    Reply::Stopped(session, split_hours_minutes(minutes as i128))
                },
                Err(error) => {
                    proof {
                        lemma_failed_clock_changes_nothing(old(self)@, now);
                    }
                    Reply::Failed(error)
                },
            },
            MenuChoice::ViewCurrentSession => match self.get_active_session() {
                Ok(session) => {
                    let minutes: i64 = session.elapsed_minutes(now);
                    Reply::Elapsed(split_hours_minutes(minutes as i128))
                },
                Err(error) => Reply::Failed(error),
            },
            MenuChoice::ViewTodayTotal => match self.get_total_minutes_from_day(self.today, now) {
                Ok(total) => Reply::DayTotal(split_hours_minutes(total)),
                Err(error) => Reply::Failed(error),
            },
            MenuChoice::SelectDay => Reply::ChooseDay(self.list_days()),
            MenuChoice::SelectWeek => Reply::ChooseWeek(week_options(self)),
            MenuChoice::Exit => Reply::Quit,
        }
    }

    /// The time worked on `date`, as seen at `now`, in hours and minutes. Fails
    /// with `NotFound` where no day is filed under that date.
    pub fn report_day(&self, date: Date, now: Timestamp) -> (outcome: Result<
        HoursMinutes,
        ClockError,
    >)
        requires
            self@.wf(),
            now.wf(),
        ensures
            match outcome {
                Ok(shown) => self@.days.contains_key(date) && shown == hours_minutes_of(
                    self@.days[date].total_minutes(now),
                ),
                Err(error) => error == ClockError::NotFound && !self@.days.contains_key(date),
            },
    {
        match self.get_total_minutes_from_day(date, now) {
            Ok(total) => Ok(split_hours_minutes(total)),
            Err(error) => Err(error),
        }
    }

    /// The time worked in `week`, as seen at `now`, in hours and minutes.
    pub fn report_week(&self, week: &WeekKey, now: Timestamp) -> (shown: HoursMinutes)
        requires
            self@.wf(),
            now.wf(),
        ensures
            shown == hours_minutes_of(self@.week_total(*week, now)),
    {
        split_hours_minutes(week_total_minutes(self, week, now))
    }
}

/// Asked for right after clocking in, at that same instant, the running session
/// has lasted no time: 0 hours and 0 minutes.
pub proof fn law_no_time_elapsed_after_clock_in(app: AppView, now: Timestamp)
    requires
        app.clock_in_result(now) is Ok,
    ensures
        app.after_choice(MenuChoice::ClockIn, now).answers(
            MenuChoice::ViewCurrentSession,
            now,
            Reply::Elapsed((HoursMinutes { hours: 0, minutes: 0 })),
        ),
{
    let day = app.days[app.today];
    law_no_time_elapsed_at_clock_in(day, now);
}

/// A request that the clock refuses leaves the store as it was.
pub proof fn lemma_failed_clock_changes_nothing(app: AppView, now: Timestamp)
    ensures
        app.clock_in_result(now) is Err ==> app.after_clock_in(now) == app,
        app.clock_out_result(now) is Err ==> app.after_clock_out(now) == app,
{
    assert(app.clock_in_result(now) is Err ==> app.after_clock_in(now).days =~= app.days);
    assert(app.clock_out_result(now) is Err ==> app.after_clock_out(now).days =~= app.days);
}

/// Clocking in on an idle day changes the store.
pub proof fn lemma_clock_in_changes_store(app: AppView, now: Timestamp)
    requires
        app.clock_in_result(now) is Ok,
    ensures
        app.after_clock_in(now) != app,
{
    let before = app.days[app.today];
    let after = app.after_clock_in(now).days[app.today];
    assert(after.sessions.len() == before.sessions.len() + 1);
}

/// Clocking out of a well-formed active day changes the store.
pub proof fn lemma_clock_out_changes_store(app: AppView, now: Timestamp)
    requires
        app.wf(),
        app.clock_out_result(now) is Ok,
    ensures
        app.after_clock_out(now) != app,
{
    let before = app.days[app.today];
    let after = app.after_clock_out(now).days[app.today];
    let index = before.active_session->0;
    assert(before.sessions[index].is_open());
    assert(!after.sessions[index].is_open());
}

} // verus!
