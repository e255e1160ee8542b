use clocko::{
    menu_options, App, ClockError, Date, HoursMinutes, MenuChoice, Reply, Session, Timestamp,
    WeekKey,
};
use std::collections::HashMap;

const MIDNIGHT: i64 = 1_725_408_000;

fn at(hour: i64, minute: i64) -> Timestamp {
    Timestamp::new(MIDNIGHT + hour * 3_600 + minute * 60, 0).unwrap()
}

fn fresh(today: Date) -> App {
    let (app, added) = App::new(None, today).unwrap();
    assert!(added);
    app
}

fn today() -> Date {
    Date::new(739_133).unwrap()
}

fn shown(hours: i128, minutes: i128) -> HoursMinutes {
    HoursMinutes { hours, minutes }
}

#[test]
fn menu_of_an_idle_day() {
    assert_eq!(
        menu_options(false),
        vec![
            MenuChoice::ClockIn,
            MenuChoice::ViewTodayTotal,
            MenuChoice::SelectDay,
            MenuChoice::SelectWeek,
            MenuChoice::Exit,
        ]
    );
}

#[test]
fn menu_of_an_active_day() {
    assert_eq!(
        menu_options(true),
        vec![
            MenuChoice::ClockOut,
            MenuChoice::ViewCurrentSession,
            MenuChoice::SelectDay,
            MenuChoice::SelectWeek,
            MenuChoice::Exit,
        ]
    );
}

#[test]
fn menu_of_the_store_follows_today() {
    let mut app = fresh(today());
    assert_eq!(app.menu(), Ok(menu_options(false)));
    app.create_session(at(9, 0)).unwrap();
    assert_eq!(app.menu(), Ok(menu_options(true)));
    app.end_active_session(at(9, 30)).unwrap();
    assert_eq!(app.menu(), Ok(menu_options(false)));
    let empty = App { data: HashMap::new(), today: today() };
    assert_eq!(empty.menu(), Err(ClockError::NotFound));
}

#[test]
fn menu_labels() {
    assert_eq!(MenuChoice::ClockIn.label(), "Clock In");
    assert_eq!(MenuChoice::ClockOut.label(), "Clock Out");
    assert_eq!(
        MenuChoice::ViewCurrentSession.label(),
        "View Current Session's Total Working Time"
    );
    assert_eq!(MenuChoice::ViewTodayTotal.label(), "View Today's Total Working Time");
    assert_eq!(MenuChoice::SelectDay.label(), "Select Day");
    assert_eq!(MenuChoice::SelectWeek.label(), "Select Week");
    assert_eq!(MenuChoice::Exit.label(), "Exit");
}

#[test]
fn error_messages() {
    assert_eq!(ClockError::NotFound.message(), "No record found for that day or session");
    assert_eq!(
        ClockError::AlreadyActive.message(),
        "Cannot create a session while there is an active session"
    );
    assert_eq!(ClockError::NoActiveSession.message(), "No active session");
    assert_eq!(ClockError::CorruptData.message(), "The stored records are corrupt");
    assert_eq!(ClockError::IoFailure.message(), "The stored records could not be read or written");
}

#[test]
fn clocking_in_starts_a_session_and_asks_for_a_save() {
    let mut app = fresh(today());
    let reply = app.respond(MenuChoice::ClockIn, at(9, 0));
    assert_eq!(reply, Reply::Started(Session { start: at(9, 0), end: None }));
    assert!(reply.needs_save());
    assert_eq!(app.has_active_session(), Ok(true));
}

#[test]
fn clocking_in_twice_fails_and_saves_nothing() {
    let mut app = fresh(today());
    app.respond(MenuChoice::ClockIn, at(9, 0));
    let before = app.clone();
    let reply = app.respond(MenuChoice::ClockIn, at(9, 5));
    assert_eq!(reply, Reply::Failed(ClockError::AlreadyActive));
    assert!(!reply.needs_save());
    assert_eq!(app, before);
}

#[test]
fn clocking_out_reports_the_length_of_the_session() {
    let mut app = fresh(today());
    app.respond(MenuChoice::ClockIn, at(9, 0));
    let reply = app.respond(MenuChoice::ClockOut, at(10, 20));
    assert_eq!(
        reply,
        Reply::Stopped(Session { start: at(9, 0), end: Some(at(10, 20)) }, shown(1, 20))
    );
    assert!(reply.needs_save());
    assert_eq!(app.has_active_session(), Ok(false));
}

#[test]
fn clocking_out_while_idle_fails_and_saves_nothing() {
    let mut app = fresh(today());
    let before = app.clone();
    let reply = app.respond(MenuChoice::ClockOut, at(9, 0));
    assert_eq!(reply, Reply::Failed(ClockError::NoActiveSession));
    assert!(!reply.needs_save());
    assert_eq!(app, before);
}

#[test]
fn the_running_session_right_after_clocking_in_has_lasted_no_time() {
    let mut app = fresh(today());
    let now = Timestamp::new(MIDNIGHT + 12_345, 678_901_234).unwrap();
    app.respond(MenuChoice::ClockIn, now);
    assert_eq!(app.respond(MenuChoice::ViewCurrentSession, now), Reply::Elapsed(shown(0, 0)));
}

#[test]
fn the_running_session_is_measured_up_to_now() {
    let mut app = fresh(today());
    app.respond(MenuChoice::ClockIn, at(9, 0));
    let before = app.clone();
    let reply = app.respond(MenuChoice::ViewCurrentSession, at(11, 15));
    assert_eq!(reply, Reply::Elapsed(shown(2, 15)));
    assert!(!reply.needs_save());
    assert_eq!(app, before);
}

#[test]
fn the_running_session_of_an_idle_day_is_an_error() {
    let mut app = fresh(today());
    assert_eq!(
        app.respond(MenuChoice::ViewCurrentSession, at(9, 0)),
        Reply::Failed(ClockError::NoActiveSession)
    );
}

#[test]
fn todays_total_in_hours_and_minutes() {
    let mut app = fresh(today());
    app.respond(MenuChoice::ClockIn, at(9, 0));
    app.respond(MenuChoice::ClockOut, at(9, 30));
    app.respond(MenuChoice::ClockIn, at(13, 0));
    app.respond(MenuChoice::ClockOut, at(13, 50));
    let reply = app.respond(MenuChoice::ViewTodayTotal, at(20, 0));
    assert_eq!(reply, Reply::DayTotal(shown(1, 20)));
    assert!(!reply.needs_save());
}

#[test]
fn choices_on_a_store_without_today_fail_with_not_found() {
    let mut app = App { data: HashMap::new(), today: today() };
    let failed = Reply::Failed(ClockError::NotFound);
    assert_eq!(app.respond(MenuChoice::ClockIn, at(9, 0)), failed);
    assert_eq!(app.respond(MenuChoice::ClockOut, at(9, 0)), failed);
    assert_eq!(app.respond(MenuChoice::ViewCurrentSession, at(9, 0)), failed);
    assert_eq!(app.respond(MenuChoice::ViewTodayTotal, at(9, 0)), failed);
    assert_eq!(app.data.len(), 0);
}

#[test]
fn selecting_a_day_offers_every_date() {
    let mut app = fresh(Date::new(739_132).unwrap());
    app.ensure_today(today());
    let reply = app.respond(MenuChoice::SelectDay, at(9, 0));
    assert!(!reply.needs_save());
    match reply {
        Reply::ChooseDay(mut dates) => {
            dates.sort_by_key(|date| date.days);
            assert_eq!(dates, vec![Date { days: 739_132 }, today()]);
        }
        other => panic!("unexpected reply {:?}", other),
    }
}

#[test]
fn selecting_a_week_offers_weeks_with_work_only() {
    let mut app = fresh(today());
    assert_eq!(app.respond(MenuChoice::SelectWeek, at(9, 0)), Reply::ChooseWeek(vec![]));
    app.respond(MenuChoice::ClockIn, at(9, 0));
    let week = WeekKey { sunday: Date { days: 739_130 }, saturday: Date { days: 739_136 } };
    assert_eq!(app.respond(MenuChoice::SelectWeek, at(9, 0)), Reply::ChooseWeek(vec![week]));
}

#[test]
fn exit_ends_the_program() {
    let mut app = fresh(today());
    let before = app.clone();
    let reply = app.respond(MenuChoice::Exit, at(9, 0));
    assert_eq!(reply, Reply::Quit);
    assert!(!reply.needs_save());
    assert_eq!(app, before);
}

#[test]
fn report_day_and_week() {
    let mut app = fresh(today());
    app.respond(MenuChoice::ClockIn, at(9, 0));
    app.respond(MenuChoice::ClockOut, at(11, 5));
    assert_eq!(app.report_day(today(), at(20, 0)), Ok(shown(2, 5)));
    assert_eq!(app.report_day(Date { days: 1 }, at(20, 0)), Err(ClockError::NotFound));
    let week = WeekKey { sunday: Date { days: 739_130 }, saturday: Date { days: 739_136 } };
    assert_eq!(app.report_week(&week, at(20, 0)), shown(2, 5));
    let other = WeekKey { sunday: Date { days: 739_137 }, saturday: Date { days: 739_143 } };
    assert_eq!(app.report_week(&other, at(20, 0)), shown(0, 0));
}
