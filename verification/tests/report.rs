use clocko::{
    week_bucket, week_options, week_total_minutes, App, Date, Session, Timestamp, WeekKey, WorkDay,
};

const DAY: i64 = 86_400;
// Midnight at the start of Sunday 1 September 2024, day 739130.
const SUNDAY: i64 = 1_725_148_800;
const SUNDAY_DAYS: i32 = 739_130;

fn fresh(today: Date) -> App {
    let (app, added) = App::new(None, today).unwrap();
    assert!(added);
    app
}

fn date(offset: i32) -> Date {
    Date::new(SUNDAY_DAYS + offset).unwrap()
}

fn at(offset: i64, hour: i64, minute: i64) -> Timestamp {
    Timestamp::new(SUNDAY + offset * DAY + hour * 3_600 + minute * 60, 0).unwrap()
}

fn worked(offset: i32, minutes: i64) -> WorkDay {
    let start = at(i64::from(offset), 9, 0);
    let end = at(i64::from(offset), 9, minutes);
    let sessions = vec![Session { start, end: Some(end) }];
    WorkDay { sessions, active_session: None, date: date(offset) }
}

fn this_week() -> WeekKey {
    WeekKey { sunday: date(0), saturday: date(6) }
}

fn sorted(mut weeks: Vec<WeekKey>) -> Vec<WeekKey> {
    weeks.sort_by_key(|week| week.sunday.days);
    weeks
}

#[test]
fn a_day_without_sessions_offers_no_week() {
    let app = fresh(date(3));
    assert_eq!(week_options(&app), vec![]);
    let days = vec![WorkDay::new(date(3)), WorkDay::new(date(10)), worked(-1, 30)];
    let more = App::restore(days, date(3)).unwrap();
    assert_eq!(week_options(&more), vec![WeekKey { sunday: date(-7), saturday: date(-1) }]);
}

#[test]
fn a_running_session_offers_its_week() {
    let mut app = fresh(date(3));
    app.create_session(at(3, 9, 0)).unwrap();
    assert_eq!(week_options(&app), vec![this_week()]);
}

#[test]
fn days_of_one_week_offer_it_once() {
    let app = App::restore(vec![worked(0, 10), worked(3, 20), worked(6, 30)], date(3)).unwrap();
    assert_eq!(week_options(&app), vec![this_week()]);
}

#[test]
fn each_week_with_work_is_offered() {
    let app = App::restore(
        vec![worked(-1, 10), worked(0, 20), worked(6, 30), worked(7, 40), WorkDay::new(date(15))],
        date(3),
    )
    .unwrap();
    assert_eq!(
        sorted(week_options(&app)),
        vec![
            WeekKey { sunday: date(-7), saturday: date(-1) },
            this_week(),
            WeekKey { sunday: date(7), saturday: date(13) },
        ]
    );
    for week in week_options(&app) {
        assert!(week.is_valid());
        assert_eq!(week_bucket(week.sunday), Some(week));
    }
}

#[test]
fn week_total_adds_up_the_days_of_the_week() {
    let app = App::restore(
        vec![worked(-1, 10), worked(0, 20), worked(3, 5), worked(6, 30), worked(7, 40)],
        date(3),
    )
    .unwrap();
    let now = at(20, 0, 0);
    assert_eq!(week_total_minutes(&app, &this_week(), now), 55);
    let before = WeekKey { sunday: date(-7), saturday: date(-1) };
    let after = WeekKey { sunday: date(7), saturday: date(13) };
    let later = WeekKey { sunday: date(14), saturday: date(20) };
    assert_eq!(week_total_minutes(&app, &before, now), 10);
    assert_eq!(week_total_minutes(&app, &after, now), 40);
    assert_eq!(week_total_minutes(&app, &later, now), 0);
}

#[test]
fn week_total_flattens_the_sessions_of_its_days() {
    let mut app = fresh(date(1));
    app.create_session(at(1, 9, 0)).unwrap();
    app.end_active_session(at(1, 9, 30)).unwrap();
    app.create_session(at(1, 13, 0)).unwrap();
    app.end_active_session(at(1, 13, 50)).unwrap();
    app.ensure_today(date(2));
    app.create_session(at(2, 9, 0)).unwrap();
    app.end_active_session(at(2, 9, 45)).unwrap();
    assert_eq!(week_total_minutes(&app, &this_week(), at(5, 0, 0)), 125);
}

#[test]
fn week_total_truncates_the_sum_of_the_whole_week() {
    let half_minute = |offset: i32| {
        let start = at(i64::from(offset), 9, 0);
        let end = Timestamp::new(start.secs + 30, 0).unwrap();
        let sessions = vec![Session { start, end: Some(end) }];
        WorkDay { sessions, active_session: None, date: date(offset) }
    };
    let days = vec![half_minute(1), half_minute(2), half_minute(4), half_minute(7)];
    let app = App::restore(days, date(2)).unwrap();
    let now = at(20, 0, 0);
    // No day has a whole minute, the three days of the week together have one.
    assert_eq!(app.get_total_minutes_from_day(date(1), now), Ok(0));
    assert_eq!(app.get_total_minutes_from_day(date(2), now), Ok(0));
    assert_eq!(week_total_minutes(&app, &this_week(), now), 1);
    let after = WeekKey { sunday: date(7), saturday: date(13) };
    assert_eq!(week_total_minutes(&app, &after, now), 0);
}

#[test]
fn week_total_counts_a_running_session_up_to_now() {
    let mut app = App::restore(vec![worked(1, 30)], date(2)).unwrap();
    app.ensure_today(date(2));
    app.create_session(at(2, 9, 0)).unwrap();
    assert_eq!(week_total_minutes(&app, &this_week(), at(2, 9, 0)), 30);
    assert_eq!(week_total_minutes(&app, &this_week(), at(2, 9, 20)), 50);
}

#[test]
fn week_total_of_a_key_that_is_no_week_is_zero() {
    let app = App::restore(vec![worked(1, 30), worked(2, 30)], date(2)).unwrap();
    let now = at(3, 0, 0);
    let from_monday = WeekKey { sunday: date(1), saturday: date(7) };
    let three_days = WeekKey { sunday: date(0), saturday: date(2) };
    assert_eq!(week_total_minutes(&app, &from_monday, now), 0);
    assert_eq!(week_total_minutes(&app, &three_days, now), 0);
    assert_eq!(week_total_minutes(&app, &this_week(), now), 60);
}
