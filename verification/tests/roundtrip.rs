use chrono::{DateTime, Datelike, FixedOffset, NaiveDate};
use clocko::{App, ClockError, Date, Session, Timestamp, WorkDay};
use serde_json::Value;

const MIDNIGHT: i64 = 1_725_408_000;

fn fresh(today: Date) -> App {
    let (app, added) = App::new(None, today).unwrap();
    assert!(added);
    app
}

fn offset() -> FixedOffset {
    FixedOffset::east_opt(2 * 3_600).unwrap()
}

fn stamp_text(at: Timestamp) -> String {
    DateTime::from_timestamp(at.secs, at.nanos).unwrap().with_timezone(&offset()).to_rfc3339()
}

fn stamp_from(text: &str) -> Timestamp {
    let at = DateTime::parse_from_rfc3339(text).unwrap();
    Timestamp::new(at.timestamp(), at.timestamp_subsec_nanos()).unwrap()
}

fn date_from(text: &str) -> Date {
    let date: NaiveDate = text.parse().unwrap();
    Date::new(date.num_days_from_ce()).unwrap()
}

fn document_of(app: &App) -> Value {
    let mut data = serde_json::Map::new();
    for day in app.records() {
        let mut sessions: Vec<Value> = Vec::new();
        for session in &day.sessions {
            let mut entry = serde_json::Map::new();
            entry.insert("start".to_string(), Value::from(stamp_text(session.start)));
            entry.insert(
                "end".to_string(),
                match session.end {
                    Some(end) => Value::from(stamp_text(end)),
                    None => Value::Null,
                },
            );
            sessions.push(Value::Object(entry));
        }
        let mut stored = serde_json::Map::new();
        stored.insert("sessions".to_string(), Value::Array(sessions));
        stored.insert(
            "active_session".to_string(),
            match day.active_session {
                Some(index) => Value::from(index),
                None => Value::Null,
            },
        );
        stored.insert("date".to_string(), Value::from(day.date.text()));
        data.insert(day.date.text(), Value::Object(stored));
    }
    let mut document = serde_json::Map::new();
    document.insert("data".to_string(), Value::Object(data));
    document.insert("today".to_string(), Value::from(app.today.text()));
    Value::Object(document)
}

fn days_of(document: &Value) -> Vec<WorkDay> {
    let mut days: Vec<WorkDay> = Vec::new();
    for (key, stored) in document["data"].as_object().unwrap() {
        let mut sessions: Vec<Session> = Vec::new();
        for entry in stored["sessions"].as_array().unwrap() {
            sessions.push(Session {
                start: stamp_from(entry["start"].as_str().unwrap()),
                end: entry["end"].as_str().map(stamp_from),
            });
        }
        let active_session =
            stored["active_session"].as_u64().map(|index| usize::try_from(index).unwrap());
        assert_eq!(stored["date"].as_str(), Some(key.as_str()));
        days.push(WorkDay { sessions, active_session, date: date_from(key) });
    }
    days
}

fn sample_store() -> App {
    let yesterday = Date::new(739_132).unwrap();
    let today = Date::new(739_133).unwrap();
    let mut app = fresh(yesterday);
    app.create_session(Timestamp::new(MIDNIGHT - 50_000, 1).unwrap()).unwrap();
    app.end_active_session(Timestamp::new(MIDNIGHT - 40_000, 999_999_999).unwrap()).unwrap();
    app.ensure_today(Date::new(1).unwrap());
    app.ensure_today(today);
    app.create_session(Timestamp::new(MIDNIGHT + 32_400, 0).unwrap()).unwrap();
    app.end_active_session(Timestamp::new(MIDNIGHT + 35_100, 250_000_000).unwrap()).unwrap();
    app.create_session(Timestamp::new(MIDNIGHT + 46_800, 123_456_789).unwrap()).unwrap();
    app
}

#[test]
fn a_saved_store_is_loaded_as_it_was() {
    let app = sample_store();
    let text = serde_json::to_string(&document_of(&app)).unwrap();
    let document: Value = serde_json::from_str(&text).unwrap();
    let loaded = App::restore(days_of(&document), app.today).unwrap();
    assert_eq!(loaded, app);
    assert_eq!(loaded.list_days().len(), 3);
    let first = loaded.get_day(Date { days: 739_132 }).unwrap();
    assert_eq!(
        first.sessions,
        vec![Session {
            start: Timestamp { secs: MIDNIGHT - 50_000, nanos: 1 },
            end: Some(Timestamp { secs: MIDNIGHT - 40_000, nanos: 999_999_999 }),
        }]
    );
    assert_eq!(
        loaded.get_active_session(),
        Ok(Session { start: Timestamp { secs: MIDNIGHT + 46_800, nanos: 123_456_789 }, end: None })
    );
}

#[test]
fn the_saved_text_holds_dates_and_offsets() {
    let mut app = fresh(Date::new(739_133).unwrap());
    app.create_session(Timestamp::new(MIDNIGHT + 32_400, 0).unwrap()).unwrap();
    let text = serde_json::to_string(&document_of(&app)).unwrap();
    assert!(text.contains("\"2024-09-04\""));
    assert!(text.contains("\"2024-09-04T11:00:00+02:00\""));
    assert!(text.contains("\"end\":null"));
    assert!(text.contains("\"active_session\":0"));
}

#[test]
fn a_document_with_an_unnamed_open_session_is_corrupt() {
    let text = "{\"data\":{\"2024-09-04\":{\"sessions\":[\
                {\"start\":\"2024-09-04T09:00:00+00:00\",\"end\":null}],\
                \"active_session\":null,\"date\":\"2024-09-04\"}},\
                \"today\":\"2024-09-04\"}";
    let document: Value = serde_json::from_str(text).unwrap();
    let today = Date::new(739_133).unwrap();
    assert_eq!(App::restore(days_of(&document), today), Err(ClockError::CorruptData));
}

#[test]
fn an_instant_is_the_same_under_every_offset() {
    assert_eq!(stamp_from("2024-09-04T11:00:00+02:00"), stamp_from("2024-09-04T09:00:00Z"));
    assert_eq!(stamp_from("2024-09-04T09:00:00Z"), Timestamp { secs: MIDNIGHT + 32_400, nanos: 0 });
    assert_eq!(stamp_from("2024-09-04T00:00:00Z"), Timestamp { secs: MIDNIGHT, nanos: 0 });
    assert_eq!(date_from("2024-09-04"), Date { days: 739_133 });
}
