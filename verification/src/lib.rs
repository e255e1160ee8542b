//! A personal time clock: work sessions per calendar day, with totals by day and
//! by week.
//!
//! The crate holds the rules of the clock, stated as contracts and proved with
//! Verus. It reads no clock, no terminal and no file: the program around it hands
//! every operation today's date or the current instant, shows what the library
//! answers, and saves the store whenever an answer asks for it.
//!
//! - `calendar`: dates as day numbers, and the Sunday-to-Saturday weeks.
//! - `instant`: timestamps, the time between two of them, and the split of a
//!   total into hours and minutes.
//! - `tally`: time added up to the nanosecond, and read in whole minutes.
//! - `session`: sessions and work days, clocking in and out.
//! - `store`: the store of work days by date.
//! - `report`: the weeks with work to report, and their totals.
//! - `shell`: the menu, and the answer to each of its choices.
//! - `error`: the failures that are reported.
//!
//! What only a calendar knows is asked of `chrono`, and believed rather than
//! proved: the weekday of a date, the date some days away from another, the
//! printed form of a date, and the time between two instants. Each of
//! these calls stands in a function of its own (`calendar::days_from_sunday`,
//! `calendar::shift_date`, `calendar::date_text` and `instant::span_between`),
//! whose contract says what is believed of it.

pub mod calendar;
pub mod error;
pub mod instant;
pub mod report;
pub mod session;
pub mod shell;
pub mod store;
pub mod tally;

pub use calendar::{week_bucket, Date, WeekKey};
pub use error::ClockError;
pub use instant::{split_hours_minutes, HoursMinutes, Timestamp};
pub use report::{week_options, week_total_minutes};
pub use session::{day_tally, day_total_minutes, Session, WorkDay};
pub use shell::{menu_options, MenuChoice, Reply};
pub use store::App;
pub use tally::Tally;
