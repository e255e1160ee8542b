//! Work sessions, the days that hold them, and the clock that opens and closes them.
//!
//! A day is either idle (no session is open) or active (exactly one session is
//! open, and the day names it). Clocking in leads from idle to active, clocking out
//! from active to idle; asked for in the other state, either one fails and changes
//! nothing.

use crate::calendar::Date;
use crate::error::ClockError;
use crate::instant::{
    minutes_between, nanos_between, whole_minutes, Timestamp, MAX_MINUTES_APART, MAX_NANOS_APART,
};
use crate::tally::Tally;
use vstd::prelude::*;

verus! {

/// One stretch of work: open while `end` is `None`, closed once it is set.
#[derive(Clone, Copy, Debug, PartialEq, Eq)]
pub struct Session {
    pub start: Timestamp,
    pub end: Option<Timestamp>,
}

impl Session {
    /// A session is well formed when its timestamps are.
    pub open spec fn wf(self) -> bool {
        &&& self.start.wf()
        &&& self.end matches Some(end) ==> end.wf()
    }

    /// Whether the session is still running.
    pub open spec fn is_open(self) -> bool {
        self.end is None
    }

    /// The session that starts at `now` and is still running.
    pub open spec fn opened_at(now: Timestamp) -> Session {
        Session { start: now, end: None }
    }

    /// This session, closed at `now`.
    pub open spec fn closed_at(self, now: Timestamp) -> Session {
        Session { start: self.start, end: Some(now) }
    }

    /// Where the session ends for the purpose of measuring it: at its end if it
    /// is closed, at `now` while it runs.
    pub open spec fn effective_end(self, now: Timestamp) -> Timestamp {
        match self.end {
            Some(end) => end,
            None => now,
        }
    }

    /// Nanoseconds that the session has lasted, as seen at `now`.
    pub open spec fn nanos(self, now: Timestamp) -> int {
        nanos_between(self.start, self.effective_end(now))
    }

    /// Whole minutes that the session has lasted, as seen at `now`.
    pub open spec fn minutes(self, now: Timestamp) -> int {
        minutes_between(self.start, self.effective_end(now))
    }

    /// Starts a session at `now`.
    pub fn begin(now: Timestamp) -> (session: Session)
        ensures
            session == Session::opened_at(now),
    {
        Session { start: now, end: None }
    }

    /// Tells whether the session is well formed.
    pub fn is_valid(&self) -> (valid: bool)
        ensures
            valid == self.wf(),
    {
        self.start.is_valid() && match self.end {
            Some(end) => end.is_valid(),
            None => true,
        }
    }

    /// Whole minutes that the session has lasted: up to its end if it is closed,
    /// up to `now` while it runs.
    pub fn elapsed_minutes(&self, now: Timestamp) -> (minutes: i64)
        requires
            self.wf(),
            now.wf(),
        ensures
            minutes == self.minutes(now),
            -MAX_MINUTES_APART <= minutes <= MAX_MINUTES_APART,
    {
        let end = match self.end {
            Some(end) => end,
            None => now,
        };
        self.start.minutes_until(end)
    }

    /// Nanoseconds that the session has lasted: up to its end if it is closed,
    /// up to `now` while it runs.
    pub fn elapsed_nanos(&self, now: Timestamp) -> (nanos: i128)
        requires
            self.wf(),
            now.wf(),
        ensures
            nanos == self.nanos(now),
            -MAX_NANOS_APART <= nanos <= MAX_NANOS_APART,
    {
        let end = match self.end {
            Some(end) => end,
            None => now,
        };
        self.start.nanos_until(end)
    }
}

/// All sessions of one calendar date, in the order in which they were started.
#[derive(Clone, Debug, PartialEq, Eq)]
pub struct WorkDay {
    pub sessions: Vec<Session>,
    pub active_session: Option<usize>,
    pub date: Date,
}

/// A work day as a mathematical value.
pub struct WorkDayView {
    pub sessions: Seq<Session>,
    pub active_session: Option<int>,
    pub date: Date,
}

impl View for WorkDay {
    type V = WorkDayView;

    open spec fn view(&self) -> WorkDayView {
        WorkDayView {
            sessions: self.sessions@,
            active_session: match self.active_session {
                Some(index) => Some(index as int),
                None => None,
            },
            date: self.date,
        }
    }
}

/// The most minutes that the tally of `count` well-formed sessions can hold, in
/// either direction.
pub open spec fn most_minutes(count: int) -> int {
    275_747_801_760 * count
}

/// The time that the sessions have lasted, added up to the nanosecond, as seen
/// at `now`.
pub open spec fn total_nanos(sessions: Seq<Session>, now: Timestamp) -> int
    decreases sessions.len(),
{
    if sessions.len() == 0 {
        0
    } else {
        total_nanos(sessions.drop_last(), now) + sessions.last().nanos(now)
    }
}

impl WorkDayView {
    /// The day of `date` on which nothing has been recorded yet.
    pub open spec fn empty(date: Date) -> WorkDayView {
        WorkDayView { sessions: Seq::empty(), active_session: None, date }
    }

    /// Whether a session is open on this day.
    pub open spec fn is_active(self) -> bool {
        self.active_session is Some
    }

    /// A day is well formed when its date and its sessions are, the session it
    /// names as active exists and is open, and no other session is open.
    pub open spec fn wf(self) -> bool {
        &&& self.date.wf()
        &&& forall|i: int| 0 <= i < self.sessions.len() ==> (#[trigger] self.sessions[i]).wf()
        &&& self.active_session matches Some(index) ==> 0 <= index < self.sessions.len()
            && self.sessions[index].is_open()
        &&& forall|i: int|
            0 <= i < self.sessions.len() && (#[trigger] self.sessions[i]).is_open()
                ==> self.active_session == Some(i)
    }

    /// The day after an attempt to clock in at `now`: a new open session is
    /// appended and named as active, unless a session is open already.
    pub open spec fn after_clock_in(self, now: Timestamp) -> WorkDayView {
        if self.is_active() {
            self
        } else {
            WorkDayView {
                sessions: self.sessions.push(Session::opened_at(now)),
                active_session: Some(self.sessions.len() as int),
                date: self.date,
            }
        }
    }

    /// What an attempt to clock in at `now` reports.
    pub open spec fn clock_in_result(self, now: Timestamp) -> Result<Session, ClockError> {
        if self.is_active() {
            Err(ClockError::AlreadyActive)
        } else {
            Ok(Session::opened_at(now))
        }
    }

    /// The day after an attempt to clock out at `now`: the active session is
    /// closed and the day is idle, unless no session is active or the named one
    /// does not exist.
    pub open spec fn after_clock_out(self, now: Timestamp) -> WorkDayView {
        match self.active_session {
            Some(index) if 0 <= index < self.sessions.len() => WorkDayView {
                sessions: self.sessions.update(index, self.sessions[index].closed_at(now)),
                active_session: None,
                date: self.date,
            },
            _ => self,
        }
    }

    /// What an attempt to clock out at `now` reports.
    pub open spec fn clock_out_result(self, now: Timestamp) -> Result<Session, ClockError> {
        match self.active_session {
            None => Err(ClockError::NoActiveSession),
            Some(index) => if 0 <= index < self.sessions.len() {
                Ok(self.sessions[index].closed_at(now))
            } else {
                Err(ClockError::NotFound)
            },
        }
    }

    /// The session that is running, or why there is none to give.
    pub open spec fn current(self) -> Result<Session, ClockError> {
        match self.active_session {
            None => Err(ClockError::NoActiveSession),
            Some(index) => if 0 <= index < self.sessions.len() {
                Ok(self.sessions[index])
            } else {
                Err(ClockError::NotFound)
            },
        }
    }

    /// Nanoseconds worked on this day, as seen at `now`: the time of all its
    /// sessions added up, a running session counting up to `now`.
    pub open spec fn total_nanos(self, now: Timestamp) -> int {
        total_nanos(self.sessions, now)
    }

    /// Whole minutes worked on this day, as seen at `now`: the time of all its
    /// sessions is added up first, and the sum is then truncated to whole minutes.
    pub open spec fn total_minutes(self, now: Timestamp) -> int {
        whole_minutes(self.total_nanos(now))
    }
}

impl WorkDay {
    /// A day of `date` on which nothing has been recorded yet.
    pub fn new(date: Date) -> (day: WorkDay)
        ensures
            day@ == WorkDayView::empty(date),
            date.wf() ==> day@.wf(),
    {
        WorkDay { sessions: Vec::new(), active_session: None, date }
    }

    /// A copy of this day.
    pub fn duplicate(&self) -> (copy: WorkDay)
        ensures
            copy@ == self@,
    {
        let mut sessions: Vec<Session> = Vec::new();
        let mut i: usize = 0;
        while i < self.sessions.len()
            invariant
                i <= self.sessions.len(),
                sessions@ == self.sessions@.take(i as int),
            decreases self.sessions.len() - i,
        {
            sessions.push(self.sessions[i]);
            assert(self.sessions@.take(i + 1) =~= self.sessions@.take(i as int).push(
                self.sessions@[i as int],
            ));
            i += 1;
        }
        assert(self.sessions@.take(i as int) =~= self.sessions@);
        WorkDay { sessions, active_session: self.active_session, date: self.date }
    }

    /// Tells whether a session is open on this day.
    pub fn is_active(&self) -> (active: bool)
        ensures
            active == self@.is_active(),
    {
        self.active_session.is_some()
    }

    /// Tells whether the day is well formed.
    pub fn is_valid(&self) -> (valid: bool)
        ensures
            valid == self@.wf(),
    {
        if !self.date.is_valid() {
            return false;
        }
        match self.active_session {
            Some(index) => {
                if index >= self.sessions.len() || self.sessions[index].end.is_some() {
                    return false;
                }
            },
            None => {},
        }
        let mut i: usize = 0;
        while i < self.sessions.len()
            invariant
                i <= self.sessions.len(),
                forall|j: int| 0 <= j < i ==> (#[trigger] self.sessions@[j]).wf(),
                forall|j: int|
                    0 <= j < i && (#[trigger] self.sessions@[j]).is_open()
                        ==> self@.active_session == Some(j),
            decreases self.sessions.len() - i,
        {
            let session = self.sessions[i];
            if !session.is_valid() {
                assert(!self@.sessions[i as int].wf());
                return false;
            }
            if session.end.is_none() {
                let named = match self.active_session {
                    Some(index) => index == i,
                    None => false,
                };
                if !named {
                    assert(self@.sessions[i as int].is_open());
                    assert(self@.active_session != Some(i as int));
                    return false;
                }
            }
            i += 1;
        }
        true
    }

    /// Clocks in at `now`. On an idle day a new open session is appended, named
    /// as active and returned. On an active day nothing changes and the attempt
    /// fails with `AlreadyActive`.
    pub fn clock_in(&mut self, now: Timestamp) -> (outcome: Result<Session, ClockError>)
        ensures
            final(self)@ == old(self)@.after_clock_in(now),
            outcome == old(self)@.clock_in_result(now),
            old(self)@.wf() && now.wf() ==> final(self)@.wf(),
    {
        if self.active_session.is_some() {
            return Err(ClockError::AlreadyActive);
        }
        let session = Session::begin(now);
        self.sessions.push(session);
        self.active_session = Some(self.sessions.len() - 1);
        proof {
            if old(self)@.wf() && now.wf() {
                lemma_clock_in_keeps_wf(old(self)@, now);
            }
        }
        Ok(session)
    }

    /// Clocks out at `now`. On an active day the active session is closed at
    /// `now` and returned, and the day becomes idle. On an idle day nothing changes
    /// and the attempt fails with `NoActiveSession`; where the day names a session
    /// that it does not hold, it fails with `NotFound`.
    pub fn clock_out(&mut self, now: Timestamp) -> (outcome: Result<Session, ClockError>)
        ensures
            final(self)@ == old(self)@.after_clock_out(now),
            outcome == old(self)@.clock_out_result(now),
            old(self)@.wf() && now.wf() ==> final(self)@.wf(),
    {
        match self.active_session {
            None => Err(ClockError::NoActiveSession),
            Some(index) => {
                if index >= self.sessions.len() {
                    return Err(ClockError::NotFound);
                }
                let closed = Session { start: self.sessions[index].start, end: Some(now) };
                self.sessions.set(index, closed);
                self.active_session = None;
                proof {
                    if old(self)@.wf() && now.wf() {
                        lemma_clock_out_keeps_wf(old(self)@, now);
                    }
                }
                Ok(closed)
            },
        }
    }

    /// The session that is running. Fails with `NoActiveSession` on an idle day,
    /// and with `NotFound` where the day names a session that it does not hold.
    pub fn current_session(&self) -> (outcome: Result<Session, ClockError>)
        ensures
            outcome == self@.current(),
    {
        match self.active_session {
            None => Err(ClockError::NoActiveSession),
            Some(index) => {
                if index < self.sessions.len() {
                    Ok(self.sessions[index])
                } else {
                    Err(ClockError::NotFound)
                }
            },
        }
    }
}

/// The time worked on a day, as seen at `now`, added up to the nanosecond: the
/// sum over all its sessions, a running session counting up to `now`, as a
/// settled tally.
pub fn day_tally(day: &WorkDay, now: Timestamp) -> (tally: Tally)
    requires
        day@.wf(),
        now.wf(),
    ensures
        tally == Tally::of(day@.total_nanos(now)),
        tally.value() == day@.total_nanos(now),
        tally.wf(),
        -most_minutes(day@.sessions.len() as int) <= tally.minutes,
        tally.minutes <= most_minutes(day@.sessions.len() as int),
{
    let mut tally = Tally::zero();
    let mut i: usize = 0;
    while i < day.sessions.len()
        invariant
            i <= day.sessions.len(),
            day@.wf(),
            now.wf(),
            tally.wf(),
            tally.value() == total_nanos(day.sessions@.take(i as int), now),
            -most_minutes(i as int) <= tally.minutes <= most_minutes(i as int),
        decreases day.sessions.len() - i,
    {
        let session = day.sessions[i];
        assert(day@.sessions[i as int].wf());
        let nanos: i128 = session.elapsed_nanos(now);
        assert(day.sessions@.take(i + 1).drop_last() =~= day.sessions@.take(i as int));
        tally = tally.plus(Tally::of_nanos(nanos));
        i += 1;
    }
    assert(day.sessions@.take(i as int) =~= day.sessions@);
    tally.settled()
}

/// Whole minutes worked on a day, as seen at `now`: the time of all its sessions
/// added up, a running session counting up to `now`, and the sum truncated to
/// whole minutes.
pub fn day_total_minutes(day: &WorkDay, now: Timestamp) -> (total: i128)
    requires
        day@.wf(),
        now.wf(),
    ensures
        total == day@.total_minutes(now),
{
    day_tally(day, now).whole_minutes()
}

/// One request made of the clock, with the instant at which it is made.
pub enum ClockOp {
    In(Timestamp),
    Out(Timestamp),
}

impl ClockOp {
    /// The instant at which the request is made.
    pub open spec fn at(self) -> Timestamp {
        match self {
            ClockOp::In(now) => now,
            ClockOp::Out(now) => now,
        }
    }
}

impl WorkDayView {
    /// The day after one request.
    pub open spec fn after(self, op: ClockOp) -> WorkDayView {
        match op {
            ClockOp::In(now) => self.after_clock_in(now),
            ClockOp::Out(now) => self.after_clock_out(now),
        }
    }

    /// The day after a sequence of requests, made in order.
    pub open spec fn after_all(self, ops: Seq<ClockOp>) -> WorkDayView
        decreases ops.len(),
    {
        if ops.len() == 0 {
            self
        } else {
            self.after_all(ops.drop_last()).after(ops.last())
        }
    }
}

/// Clocking in at a well-formed instant keeps a well-formed day well formed.
pub proof fn lemma_clock_in_keeps_wf(day: WorkDayView, now: Timestamp)
    requires
        day.wf(),
        now.wf(),
    ensures
        day.after_clock_in(now).wf(),
{
    let after = day.after_clock_in(now);
    if !day.is_active() {
        assert forall|i: int| 0 <= i < after.sessions.len() implies
            (#[trigger] after.sessions[i]).wf() by {
            if i < day.sessions.len() {
                assert(after.sessions[i] == day.sessions[i]);
            }
        }
        assert forall|i: int|
            0 <= i < after.sessions.len() && (#[trigger] after.sessions[i]).is_open() implies
            after.active_session == Some(i) by {
            if i < day.sessions.len() {
                assert(after.sessions[i] == day.sessions[i]);
            }
        }
    }
}

/// Clocking out at a well-formed instant keeps a well-formed day well formed.
pub proof fn lemma_clock_out_keeps_wf(day: WorkDayView, now: Timestamp)
    requires
        day.wf(),
        now.wf(),
    ensures
        day.after_clock_out(now).wf(),
{
    let after = day.after_clock_out(now);
    if let Some(index) = day.active_session {
        assert forall|i: int| 0 <= i < after.sessions.len() implies
            (#[trigger] after.sessions[i]).wf() by {
            if i != index {
                assert(after.sessions[i] == day.sessions[i]);
            }
        }
        assert forall|i: int|
            0 <= i < after.sessions.len() && (#[trigger] after.sessions[i]).is_open() implies
            after.active_session == Some(i) by {
            if i != index {
                assert(after.sessions[i] == day.sessions[i]);
            }
        }
    }
}

/// Whatever requests are made of a well-formed day, in whatever order, it stays
/// well formed.
pub proof fn lemma_requests_keep_wf(day: WorkDayView, ops: Seq<ClockOp>)
    requires
        day.wf(),
        forall|j: int| 0 <= j < ops.len() ==> (#[trigger] ops[j]).at().wf(),
    ensures
        day.after_all(ops).wf(),
    decreases ops.len(),
{
    if ops.len() > 0 {
        let earlier = ops.drop_last();
        assert forall|j: int| 0 <= j < earlier.len() implies (#[trigger] earlier[j]).at().wf() by {
            assert(earlier[j] == ops[j]);
        }
        lemma_requests_keep_wf(day, earlier);
        let before = day.after_all(earlier);
        assert(ops.last() == ops[ops.len() - 1]);
        match ops.last() {
            ClockOp::In(now) => lemma_clock_in_keeps_wf(before, now),
            ClockOp::Out(now) => lemma_clock_out_keeps_wf(before, now),
        }
    }
}

/// In every sequence of requests made of a well-formed day, idle and active
/// alternate: a request to clock in turns an idle day active by appending one
/// open session, and leaves an active day as it is; a request to clock out turns
/// an active day idle by closing the session it names, and leaves an idle day as
/// it is. The law speaks of the request at position `i` and of the day before and
/// after it.
pub proof fn law_idle_and_active_alternate(day: WorkDayView, ops: Seq<ClockOp>, i: int)
    requires
        day.wf(),
        forall|j: int| 0 <= j < ops.len() ==> (#[trigger] ops[j]).at().wf(),
        0 <= i < ops.len(),
    ensures
        ({
            let before = day.after_all(ops.take(i));
            let after = day.after_all(ops.take(i + 1));
            &&& before.wf()
            &&& after.wf()
            &&& after.date == before.date
            &&& match ops[i] {
                ClockOp::In(now) => if before.is_active() {
                    after == before
                } else {
                    &&& after.active_session == Some(before.sessions.len() as int)
                    &&& after.sessions == before.sessions.push(Session::opened_at(now))
                },
                ClockOp::Out(now) => if before.is_active() {
                    let index = before.active_session->0;
                    &&& !after.is_active()
                    &&& after.sessions == before.sessions.update(
                        index,
                        before.sessions[index].closed_at(now),
                    )
                } else {
                    after == before
                },
            }
        }),
{
    let earlier = ops.take(i);
    let upto = ops.take(i + 1);
    assert(upto.drop_last() =~= earlier);
    assert(upto.last() == ops[i]);
    assert forall|j: int| 0 <= j < earlier.len() implies (#[trigger] earlier[j]).at().wf() by {
        assert(earlier[j] == ops[j]);
    }
    assert forall|j: int| 0 <= j < upto.len() implies (#[trigger] upto[j]).at().wf() by {
        assert(upto[j] == ops[j]);
    }
    lemma_requests_keep_wf(day, earlier);
    lemma_requests_keep_wf(day, upto);
}

/// Right after clocking in on an idle day, the running session is the one just
/// started, and seen at that same instant it has lasted zero minutes.
pub proof fn law_no_time_elapsed_at_clock_in(day: WorkDayView, now: Timestamp)
    requires
        !day.is_active(),
    ensures
        day.after_clock_in(now).current() == Ok::<Session, ClockError>(Session::opened_at(now)),
        Session::opened_at(now).minutes(now) == 0,
{
}

/// The time of a day is the time of its sessions added up: one more session
/// adds its own nanoseconds to the sum, and the minutes of the day are the whole
/// minutes of that sum.
pub proof fn law_total_adds_up(sessions: Seq<Session>, next: Session, now: Timestamp)
    ensures
        total_nanos(sessions.push(next), now) == total_nanos(sessions, now) + next.nanos(now),
        total_nanos(Seq::<Session>::empty(), now) == 0,
{
    assert(sessions.push(next).drop_last() =~= sessions);
}

} // verus!
